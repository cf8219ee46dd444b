//! Gopher item types.
use vstd::prelude::*;

verus! {

/// What kind of thing a Gopher item is.
#[derive(Clone, Copy, Debug, PartialEq, Eq, Structural)]
pub enum Type {
    /// Code `0`.
    Text,
    /// Code `1`.
    Menu,
    /// Code `2`.
    CSOEntity,
    /// Code `3`.
    Error,
    /// Code `4`.
    Binhex,
    /// Code `5`.
    DOSFile,
    /// Code `6`.
    UUEncoded,
    /// Code `7`.
    Search,
    /// Code `8`.
    Telnet,
    /// Code `9`.
    Binary,
    /// Code `+`.
    Mirror,
    /// Code `g`.
    GIF,
    /// Code `T`.
    Telnet3270,
    /// Code `h`.
    HTML,
    /// Code `I`.
    Image,
    /// Code `p`.
    PNG,
    /// Code `i`.
    Info,
    /// Code `s`.
    Sound,
    /// Code `d`.
    Document,
    /// Code `;`.
    Video,
}

impl Type {
    /// The type that has the code `c`, if there is one.
    pub fn from(c: char) -> (r: Option<Type>)
        ensures
            r == type_of(c),
    {
        match c {
            '0' => Some(Type::Text),
            '1' => Some(Type::Menu),
            '2' => Some(Type::CSOEntity),
            '3' => Some(Type::Error),
            '4' => Some(Type::Binhex),
            '5' => Some(Type::DOSFile),
            '6' => Some(Type::UUEncoded),
            '7' => Some(Type::Search),
            '8' => Some(Type::Telnet),
            '9' => Some(Type::Binary),
            '+' => Some(Type::Mirror),
            'g' => Some(Type::GIF),
            'T' => Some(Type::Telnet3270),
            'h' => Some(Type::HTML),
            'I' => Some(Type::Image),
            'p' => Some(Type::PNG),
            'i' => Some(Type::Info),
            's' => Some(Type::Sound),
            'd' => Some(Type::Document),
            ';' => Some(Type::Video),
            _ => None,
        }
    }
}

/// The type that has the code `c`, if there is one.
pub open spec fn type_of(c: char) -> Option<Type> {
    match c {
        '0' => Some(Type::Text),
        '1' => Some(Type::Menu),
        '2' => Some(Type::CSOEntity),
        '3' => Some(Type::Error),
        '4' => Some(Type::Binhex),
        '5' => Some(Type::DOSFile),
        '6' => Some(Type::UUEncoded),
        '7' => Some(Type::Search),
        '8' => Some(Type::Telnet),
        '9' => Some(Type::Binary),
        '+' => Some(Type::Mirror),
        'g' => Some(Type::GIF),
        'T' => Some(Type::Telnet3270),
        'h' => Some(Type::HTML),
        'I' => Some(Type::Image),
        'p' => Some(Type::PNG),
        'i' => Some(Type::Info),
        's' => Some(Type::Sound),
        'd' => Some(Type::Document),
        ';' => Some(Type::Video),
        _ => None,
    }
}

/// No two codes stand for one type.
pub proof fn law_type_codes_are_distinct(c: char, d: char)
    requires
        type_of(c) is Some,
        type_of(c) == type_of(d),
    ensures
        c == d,
{
}

/// A type code is an ASCII character, so it takes one byte.
pub proof fn law_type_codes_are_ascii(c: char)
    requires
        type_of(c) is Some,
    ensures
        c <= '\u{7f}',
{
}

/// The characters that are type codes, and no others, stand for a type: the ten
/// digits and ten more.
pub proof fn law_which_characters_are_type_codes(c: char)
    ensures
        type_of(c) is Some <==> '0' <= c <= '9' || seq![
            '+',
            ';',
            'I',
            'T',
            'd',
            'g',
            'h',
            'i',
            'p',
            's',
        ].contains(c),
{
    let others = seq!['+', ';', 'I', 'T', 'd', 'g', 'h', 'i', 'p', 's'];
    assert(others[0] == '+' && others[1] == ';' && others[2] == 'I' && others[3] == 'T'
        && others[4] == 'd' && others[5] == 'g' && others[6] == 'h' && others[7] == 'i'
        && others[8] == 'p' && others[9] == 's');
}

/// Of every type, the one code that stands for it.
pub proof fn law_code_of_a_type(c: char)
    ensures
        type_of(c) == Some(Type::Text) <==> c == '0',
        type_of(c) == Some(Type::Menu) <==> c == '1',
        type_of(c) == Some(Type::CSOEntity) <==> c == '2',
        type_of(c) == Some(Type::Error) <==> c == '3',
        type_of(c) == Some(Type::Binhex) <==> c == '4',
        type_of(c) == Some(Type::DOSFile) <==> c == '5',
        type_of(c) == Some(Type::UUEncoded) <==> c == '6',
        type_of(c) == Some(Type::Search) <==> c == '7',
        type_of(c) == Some(Type::Telnet) <==> c == '8',
        type_of(c) == Some(Type::Binary) <==> c == '9',
        type_of(c) == Some(Type::Mirror) <==> c == '+',
        type_of(c) == Some(Type::GIF) <==> c == 'g',
        type_of(c) == Some(Type::Telnet3270) <==> c == 'T',
        type_of(c) == Some(Type::HTML) <==> c == 'h',
        type_of(c) == Some(Type::Image) <==> c == 'I',
        type_of(c) == Some(Type::PNG) <==> c == 'p',
        type_of(c) == Some(Type::Info) <==> c == 'i',
        type_of(c) == Some(Type::Sound) <==> c == 's',
        type_of(c) == Some(Type::Document) <==> c == 'd',
        type_of(c) == Some(Type::Video) <==> c == ';',
{
}

} // verus!
