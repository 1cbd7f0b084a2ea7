//! JSON chat components built from text and formatting.

use vstd::prelude::*;
use crate::protocol::packets::play::chat::ChatMessageOut;
use crate::text::{chars_of, push_char, push_str, replace_all, replace_all_of};

verus! {

/// The colours of chat text.
#[derive(Debug, Clone, Copy, PartialEq, Eq)]
pub enum ChatColor {
    Black,
    DarkBlue,
    DarkGreen,
    DarkAqua,
    DarkRed,
    DarkPurple,
    Gold,
    Gray,
    DarkGray,
    Blue,
    Green,
    Aqua,
    Red,
    LightPurple,
    Yellow,
    White,
    Reset,
}

impl ChatColor {
    /// The name of a colour in JSON text.
    pub open spec fn name_text(self) -> Seq<char> {
        match self {
            ChatColor::Black => "black"@,
            ChatColor::DarkBlue => "dark_blue"@,
            ChatColor::DarkGreen => "dark_green"@,
            ChatColor::DarkAqua => "dark_aqua"@,
            ChatColor::DarkRed => "dark_red"@,
            ChatColor::DarkPurple => "dark_purple"@,
            ChatColor::Gold => "gold"@,
            ChatColor::Gray => "gray"@,
            ChatColor::DarkGray => "dark_gray"@,
            ChatColor::Blue => "blue"@,
            ChatColor::Green => "green"@,
            ChatColor::Aqua => "aqua"@,
            ChatColor::Red => "red"@,
            ChatColor::LightPurple => "light_purple"@,
            ChatColor::Yellow => "yellow"@,
            ChatColor::White => "white"@,
            ChatColor::Reset => "reset"@,
        }
    }

    /// The name of the colour in JSON text.
    pub fn name(&self) -> (r: &str)
        ensures
            r@ == self.name_text(),
    {
        match self {
            ChatColor::Black => "black",
            ChatColor::DarkBlue => "dark_blue",
            ChatColor::DarkGreen => "dark_green",
            ChatColor::DarkAqua => "dark_aqua",
            ChatColor::DarkRed => "dark_red",
            ChatColor::DarkPurple => "dark_purple",
            ChatColor::Gold => "gold",
            ChatColor::Gray => "gray",
            ChatColor::DarkGray => "dark_gray",
            ChatColor::Blue => "blue",
            ChatColor::Green => "green",
            ChatColor::Aqua => "aqua",
            ChatColor::Red => "red",
            ChatColor::LightPurple => "light_purple",
            ChatColor::Yellow => "yellow",
            ChatColor::White => "white",
            ChatColor::Reset => "reset",
        }
    }
}

/// How a character is written inside a JSON string: backslash, quote,
/// newline and carriage return are escaped.
pub open spec fn escape_char(c: char) -> Seq<char> {
    if c == '\\' {
        seq!['\\', '\\']
    } else if c == '"' {
        seq!['\\', '"']
    } else if c == '\n' {
        seq!['\\', 'n']
    } else if c == '\r' {
        seq!['\\', 'r']
    } else {
        seq![c]
    }
}

/// Text escaped for a JSON string.
pub open spec fn escape_json(s: Seq<char>) -> Seq<char>
    decreases s.len(),
{
    if s.len() == 0 {
        seq![]
    } else {
        escape_json(s.drop_last()) + escape_char(s.last())
    }
}

/// A flag's member, when the flag is set.
pub open spec fn flag_text(on: bool, member: Seq<char>) -> Seq<char> {
    if on {
        member
    } else {
        seq![]
    }
}

/// A JSON text component: the escaped text, then the colour and each set
/// flag, in that order.
pub open spec fn component_json(
    text: Seq<char>,
    color: Option<ChatColor>,
    bold: bool,
    italic: bool,
    underline: bool,
    strikethrough: bool,
) -> Seq<char> {
    "{\"text\":\""@ + escape_json(text) + seq!['"'] + match color {
        Some(c) => ",\"color\":\""@ + c.name_text() + seq!['"'],
        None => seq![],
    } + flag_text(bold, ",\"bold\":true"@) + flag_text(italic, ",\"italic\":true"@) + flag_text(
        underline,
        ",\"underlined\":true"@,
    ) + flag_text(strikethrough, ",\"strikethrough\":true"@) + seq!['}']
}

/// Builds a chat component step by step.
#[derive(Debug, Clone)]
pub struct ChatBuilder {
    text: String,
    color: Option<ChatColor>,
    bold: bool,
    italic: bool,
    underline: bool,
    strikethrough: bool,
}

impl ChatBuilder {
    /// The component this builder stands for.
    pub closed spec fn json(&self) -> Seq<char> {
        component_json(self.text@, self.color, self.bold, self.italic, self.underline, self.strikethrough)
    }

    /// The parts of the builder: text, colour and flags.
    pub closed spec fn parts(&self) -> (Seq<char>, Option<ChatColor>, bool, bool, bool, bool) {
        (self.text@, self.color, self.bold, self.italic, self.underline, self.strikethrough)
    }

    /// Plain text, no colour, no flags.
    pub fn new(text: String) -> (b: Self)
        ensures
            b.parts() == (text@, None::<ChatColor>, false, false, false, false),
    {
        Self { text, color: None, bold: false, italic: false, underline: false, strikethrough: false }
    }

    /// Sets the colour.
    pub fn color(self, color: ChatColor) -> (b: Self)
        ensures
            b.parts() == (self.parts().0, Some(color), self.parts().2, self.parts().3, self.parts().4, self.parts().5),
    {
        let mut b = self;
        b.color = Some(color);
        b
    }

    /// Makes the text bold.
    pub fn bold(self) -> (b: Self)
        ensures
            b.parts() == (self.parts().0, self.parts().1, true, self.parts().3, self.parts().4, self.parts().5),
    {
        let mut b = self;
        b.bold = true;
        b
    }

    /// Makes the text italic.
    pub fn italic(self) -> (b: Self)
        ensures
            b.parts() == (self.parts().0, self.parts().1, self.parts().2, true, self.parts().4, self.parts().5),
    {
        let mut b = self;
        b.italic = true;
        b
    }

    /// Underlines the text.
    pub fn underline(self) -> (b: Self)
        ensures
            b.parts() == (self.parts().0, self.parts().1, self.parts().2, self.parts().3, true, self.parts().5),
    {
        let mut b = self;
        b.underline = true;
        b
    }

    /// Strikes the text through.
    pub fn strikethrough(self) -> (b: Self)
        ensures
            b.parts() == (self.parts().0, self.parts().1, self.parts().2, self.parts().3, self.parts().4, true),
    {
        let mut b = self;
        b.strikethrough = true;
        b
    }

    /// The JSON text of the component.
    pub fn build(self) -> (json: String)
        ensures
            json@ == component_json(
                self.parts().0,
                self.parts().1,
                self.parts().2,
                self.parts().3,
                self.parts().4,
                self.parts().5,
            ),
    {
        let mut json = String::new();
        push_str(&mut json, "{\"text\":\"");
        push_escaped(&mut json, self.text.as_str());
        push_char(&mut json, '"');
        push_color(&mut json, self.color);
        push_flag(&mut json, self.bold, ",\"bold\":true");
        push_flag(&mut json, self.italic, ",\"italic\":true");
        push_flag(&mut json, self.underline, ",\"underlined\":true");
        push_flag(&mut json, self.strikethrough, ",\"strikethrough\":true");
        push_char(&mut json, '}');
        assert(json@ =~= component_json(
            self.text@,
            self.color,
            self.bold,
            self.italic,
            self.underline,
            self.strikethrough,
        ));
        json
    }

    /// The component as a chat message.
    pub fn into_packet(self) -> (m: ChatMessageOut)
        ensures
            m.json@ == self.json(),
    {
        let json = self.build();
        ChatMessageOut::from_json(json.as_str())
    }

    /// The JSON text of plain text.
    pub fn plain_json(text: &str) -> (json: String)
        ensures
            json@ == component_json(text@, None, false, false, false, false),
    {
        Self::new(text.to_owned()).build()
    }

    /// The JSON text of coloured text.
    pub fn colored_json(text: &str, color: ChatColor) -> (json: String)
        ensures
            json@ == component_json(text@, Some(color), false, false, false, false),
    {
        Self::new(text.to_owned()).color(color).build()
    }

    /// The JSON text of a chat line: the format with `{username}` and then
    /// `{message}` replaced.
    pub fn chat_message(format: &str, username: &str, message: &str) -> (json: String)
        ensures
            json@ == component_json(
                replace_all(replace_all(format@, "{username}"@, username@), "{message}"@, message@),
                None,
                false,
                false,
                false,
                false,
            ),
    {
        proof {
            reveal_strlit("{username}");
            reveal_strlit("{message}");
        }
        let with_name = replace_all_of(format, "{username}", username);
        let formatted = replace_all_of(with_name.as_str(), "{message}", message);
        Self::new(formatted).build()
    }
}

/// Appends `text` escaped for a JSON string.
fn push_escaped(json: &mut String, text: &str)
    ensures
        final(json)@ == old(json)@ + escape_json(text@),
{
    let cs = chars_of(text);
    let ghost start = json@;
    let mut i: usize = 0;
    while i < cs.len()
        invariant
            i <= cs@.len(),
            cs@ == text@,
            start == old(json)@,
            json@ == start + escape_json(cs@.take(i as int)),
        decreases cs.len() - i,
    {
        let c = cs[i];
        if c == '\\' {
            push_char(json, '\\');
            push_char(json, '\\');
        } else if c == '"' {
            push_char(json, '\\');
            push_char(json, '"');
        } else if c == '\n' {
            push_char(json, '\\');
            push_char(json, 'n');
        } else if c == '\r' {
            push_char(json, '\\');
            push_char(json, 'r');
        } else {
            push_char(json, c);
        }
        assert(cs@.take(i + 1).drop_last() =~= cs@.take(i as int));
        assert(json@ =~= start + escape_json(cs@.take(i + 1)));
        i = i + 1;
    }
    assert(cs@.take(i as int) =~= cs@);
}

/// Appends the colour member, if there is a colour.
fn push_color(json: &mut String, color: Option<ChatColor>)
    ensures
        final(json)@ == old(json)@ + match color {
            Some(c) => ",\"color\":\""@ + c.name_text() + seq!['"'],
            None => seq![],
        },
{
    match color {
        Some(c) => {
            push_str(json, ",\"color\":\"");
            push_str(json, c.name());
            push_char(json, '"');
            assert(json@ =~= old(json)@ + (",\"color\":\""@ + c.name_text() + seq!['"']));
        },
        None => {
            assert(json@ =~= old(json)@ + Seq::<char>::empty());
        },
    }
}

/// Appends `member` when `on`.
fn push_flag(json: &mut String, on: bool, member: &str)
    ensures
        final(json)@ == old(json)@ + flag_text(on, member@),
{
    if on {
        push_str(json, member);
    } else {
        assert(json@ =~= old(json)@ + flag_text(on, member@));
    }
}

} // verus!
