//! Vietnamese charset encoder.
//!
//! The engine works in Unicode; this module turns its output into one of the legacy
//! Vietnamese charsets. Supported charsets:
//! - **Unicode**: no conversion (identity)
//! - **TCVN3 (ABC)**: legacy encoding used with .VnTimes and similar fonts
//! - **VNI Windows**: legacy VNI encoding for Windows
//! - **VIQR**: ASCII-based representation of Vietnamese diacritics

use vstd::prelude::*;
use crate::text::{chars_of, push_char, string_from_str, string_of};

verus! {

/// Represents the available output charset encodings.
#[derive(Debug, Clone, Copy, PartialEq, Eq, Structural)]
pub enum CharsetEncoding {
    /// Standard Unicode (UTF-8). No conversion needed.
    Unicode,
    /// TCVN3 (ABC) legacy encoding.
    Tcvn3,
    /// VNI Windows legacy encoding.
    VniWindows,
    /// VIQR ASCII-based encoding.
    Viqr,
}

/// The human-readable name of a charset.
pub open spec fn spec_display_name(c: CharsetEncoding) -> Seq<char> {
    match c {
        CharsetEncoding::Unicode => "Unicode"@,
        CharsetEncoding::Tcvn3 => "TCVN3 (ABC)"@,
        CharsetEncoding::VniWindows => "VNI Windows"@,
        CharsetEncoding::Viqr => "VIQR"@,
    }
}

/// The short name of a charset, the one that configurations store.
pub open spec fn spec_short_name(c: CharsetEncoding) -> Seq<char> {
    match c {
        CharsetEncoding::Unicode => "Unicode"@,
        CharsetEncoding::Tcvn3 => "TCVN3"@,
        CharsetEncoding::VniWindows => "VNI"@,
        CharsetEncoding::Viqr => "VIQR"@,
    }
}

/// The charset with a short name, if there is one.
pub open spec fn charset_by_name(s: Seq<char>) -> Option<CharsetEncoding> {
    if s == "Unicode"@ {
        Some(CharsetEncoding::Unicode)
    } else if s == "TCVN3"@ {
        Some(CharsetEncoding::Tcvn3)
    } else if s == "VNI"@ {
        Some(CharsetEncoding::VniWindows)
    } else if s == "VIQR"@ {
        Some(CharsetEncoding::Viqr)
    } else {
        None
    }
}

/// The charsets, in the order in which they are offered.
pub open spec fn all_charsets() -> Seq<CharsetEncoding> {
    seq![
        CharsetEncoding::Unicode,
        CharsetEncoding::Tcvn3,
        CharsetEncoding::VniWindows,
        CharsetEncoding::Viqr,
    ]
}

impl CharsetEncoding {
    /// Returns the human-readable display name for the charset.
    pub fn display_name(&self) -> (r: &'static str)
        ensures
            r@ == spec_display_name(*self),
    {
        match self {
            CharsetEncoding::Unicode => "Unicode",
            CharsetEncoding::Tcvn3 => "TCVN3 (ABC)",
            CharsetEncoding::VniWindows => "VNI Windows",
            CharsetEncoding::Viqr => "VIQR",
        }
    }

    /// Returns a list of all available charset encodings.
    pub fn all() -> (r: Vec<CharsetEncoding>)
        ensures
            r@ == all_charsets(),
    {
        let r = vec![
            CharsetEncoding::Unicode,
            CharsetEncoding::Tcvn3,
            CharsetEncoding::VniWindows,
            CharsetEncoding::Viqr,
        ];
        assert(r@ =~= all_charsets());
        r
    }

    /// The short name of the charset, as configurations store it.
    pub fn to_string(&self) -> (r: String)
        ensures
            r@ == spec_short_name(*self),
    {
        match self {
            CharsetEncoding::Unicode => string_from_str("Unicode"),
            CharsetEncoding::Tcvn3 => string_from_str("TCVN3"),
            CharsetEncoding::VniWindows => string_from_str("VNI"),
            CharsetEncoding::Viqr => string_from_str("VIQR"),
        }
    }

    /// The charset with a short name; an error that names the text otherwise.
    pub fn from_str(s: &str) -> (r: Result<CharsetEncoding, String>)
        ensures
            r is Ok <==> charset_by_name(s@) is Some,
            r matches Ok(c) ==> charset_by_name(s@) == Some(c),
            r matches Err(e) ==> e@ == "Unknown charset: "@ + s@,
    {
        if crate::text::str_eq(s, "Unicode") {
            Ok(CharsetEncoding::Unicode)
        } else if crate::text::str_eq(s, "TCVN3") {
            Ok(CharsetEncoding::Tcvn3)
        } else if crate::text::str_eq(s, "VNI") {
            Ok(CharsetEncoding::VniWindows)
        } else if crate::text::str_eq(s, "VIQR") {
            Ok(CharsetEncoding::Viqr)
        } else {
            let mut e = string_from_str("Unknown charset: ");
            let chars = chars_of(s);
            let ghost start = e@;
            let mut i: usize = 0;
            while i < chars.len()
                invariant
                    i <= chars@.len(),
                    e@ == start + chars@.take(i as int),
                decreases chars@.len() - i,
            {
                push_char(&mut e, chars[i]);
                assert(chars@.take(i + 1) == chars@.take(i as int).push(chars@[i as int]));
                i = i + 1;
            }
            assert(chars@.take(chars@.len() as int) == chars@);
            Err(e)
        }
    }
}

/// The TCVN3 (ABC) code of a Vietnamese letter.
pub open spec fn tcvn3_code(c: char) -> Option<Seq<char>> {
    match c {
        'đ' => Some(seq!['\u{ae}']),
        'â' => Some(seq!['\u{a9}']),
        'ă' => Some(seq!['\u{a8}']),
        'ê' => Some(seq!['\u{aa}']),
        'ô' => Some(seq!['\u{ab}']),
        'ơ' => Some(seq!['\u{ac}']),
        'ư' => Some(seq!['\u{ad}']),
        'á' => Some(seq!['\u{b8}']),
        'à' => Some(seq!['\u{b5}']),
        'ả' => Some(seq!['\u{b6}']),
        'ã' => Some(seq!['\u{b7}']),
        'ạ' => Some(seq!['\u{b9}']),
        'ấ' => Some(seq!['\u{ca}']),
        'ầ' => Some(seq!['\u{c7}']),
        'ẩ' => Some(seq!['\u{c8}']),
        'ẫ' => Some(seq!['\u{c9}']),
        'ậ' => Some(seq!['\u{cb}']),
        'ắ' => Some(seq!['\u{be}']),
        'ằ' => Some(seq!['\u{bb}']),
        'ẳ' => Some(seq!['\u{bc}']),
        'ẵ' => Some(seq!['\u{bd}']),
        'ặ' => Some(seq!['\u{c6}']),
        'é' => Some(seq!['\u{d0}']),
        'è' => Some(seq!['\u{cc}']),
        'ẻ' => Some(seq!['\u{ce}']),
        'ẽ' => Some(seq!['\u{cf}']),
        'ẹ' => Some(seq!['\u{d1}']),
        'ế' => Some(seq!['\u{d5}']),
        'ề' => Some(seq!['\u{d2}']),
        'ể' => Some(seq!['\u{d3}']),
        'ễ' => Some(seq!['\u{d4}']),
        'ệ' => Some(seq!['\u{d6}']),
        'í' => Some(seq!['\u{dd}']),
        'ì' => Some(seq!['\u{d7}']),
        'ỉ' => Some(seq!['\u{d8}']),
        'ĩ' => Some(seq!['\u{dc}']),
        'ị' => Some(seq!['\u{de}']),
        'ó' => Some(seq!['\u{e3}']),
        'ò' => Some(seq!['\u{df}']),
        'ỏ' => Some(seq!['\u{e1}']),
        'õ' => Some(seq!['\u{e2}']),
        'ọ' => Some(seq!['\u{e4}']),
        'ố' => Some(seq!['\u{e8}']),
        'ồ' => Some(seq!['\u{e5}']),
        'ổ' => Some(seq!['\u{e6}']),
        'ỗ' => Some(seq!['\u{e7}']),
        'ộ' => Some(seq!['\u{e9}']),
        'ớ' => Some(seq!['\u{ed}']),
        'ờ' => Some(seq!['\u{ea}']),
        'ở' => Some(seq!['\u{eb}']),
        'ỡ' => Some(seq!['\u{ec}']),
        'ợ' => Some(seq!['\u{ee}']),
        'ú' => Some(seq!['\u{f3}']),
        'ù' => Some(seq!['\u{ef}']),
        'ủ' => Some(seq!['\u{f1}']),
        'ũ' => Some(seq!['\u{f2}']),
        'ụ' => Some(seq!['\u{f4}']),
        'ứ' => Some(seq!['\u{f8}']),
        'ừ' => Some(seq!['\u{f5}']),
        'ử' => Some(seq!['\u{f6}']),
        'ữ' => Some(seq!['\u{f7}']),
        'ự' => Some(seq!['\u{f9}']),
        'ý' => Some(seq!['\u{fd}']),
        'ỳ' => Some(seq!['\u{fa}']),
        'ỷ' => Some(seq!['\u{fb}']),
        'ỹ' => Some(seq!['\u{fc}']),
        'ỵ' => Some(seq!['\u{fe}']),
        'Đ' => Some(seq!['\u{a7}']),
        'Â' => Some(seq!['\u{a2}']),
        'Ă' => Some(seq!['\u{a1}']),
        'Ê' => Some(seq!['\u{a3}']),
        'Ô' => Some(seq!['\u{a4}']),
        'Ơ' => Some(seq!['\u{a5}']),
        'Ư' => Some(seq!['\u{a6}']),
        'Á' => Some(seq!['\u{b8}']),
        'À' => Some(seq!['\u{b5}']),
        'Ả' => Some(seq!['\u{b6}']),
        'Ã' => Some(seq!['\u{b7}']),
        'Ạ' => Some(seq!['\u{b9}']),
        'Ấ' => Some(seq!['\u{ca}']),
        'Ầ' => Some(seq!['\u{c7}']),
        'Ẩ' => Some(seq!['\u{c8}']),
        'Ẫ' => Some(seq!['\u{c9}']),
        'Ậ' => Some(seq!['\u{cb}']),
        'Ắ' => Some(seq!['\u{be}']),
        'Ằ' => Some(seq!['\u{bb}']),
        'Ẳ' => Some(seq!['\u{bc}']),
        'Ẵ' => Some(seq!['\u{bd}']),
        'Ặ' => Some(seq!['\u{c6}']),
        'É' => Some(seq!['\u{d0}']),
        'È' => Some(seq!['\u{cc}']),
        'Ẻ' => Some(seq!['\u{ce}']),
        'Ẽ' => Some(seq!['\u{cf}']),
        'Ẹ' => Some(seq!['\u{d1}']),
        'Ế' => Some(seq!['\u{d5}']),
        'Ề' => Some(seq!['\u{d2}']),
        'Ể' => Some(seq!['\u{d3}']),
        'Ễ' => Some(seq!['\u{d4}']),
        'Ệ' => Some(seq!['\u{d6}']),
        'Í' => Some(seq!['\u{dd}']),
        'Ì' => Some(seq!['\u{d7}']),
        'Ỉ' => Some(seq!['\u{d8}']),
        'Ĩ' => Some(seq!['\u{dc}']),
        'Ị' => Some(seq!['\u{de}']),
        'Ó' => Some(seq!['\u{e3}']),
        'Ò' => Some(seq!['\u{df}']),
        'Ỏ' => Some(seq!['\u{e1}']),
        'Õ' => Some(seq!['\u{e2}']),
        'Ọ' => Some(seq!['\u{e4}']),
        'Ố' => Some(seq!['\u{e8}']),
        'Ồ' => Some(seq!['\u{e5}']),
        'Ổ' => Some(seq!['\u{e6}']),
        'Ỗ' => Some(seq!['\u{e7}']),
        'Ộ' => Some(seq!['\u{e9}']),
        'Ớ' => Some(seq!['\u{ed}']),
        'Ờ' => Some(seq!['\u{ea}']),
        'Ở' => Some(seq!['\u{eb}']),
        'Ỡ' => Some(seq!['\u{ec}']),
        'Ợ' => Some(seq!['\u{ee}']),
        'Ú' => Some(seq!['\u{f3}']),
        'Ù' => Some(seq!['\u{ef}']),
        'Ủ' => Some(seq!['\u{f1}']),
        'Ũ' => Some(seq!['\u{f2}']),
        'Ụ' => Some(seq!['\u{f4}']),
        'Ứ' => Some(seq!['\u{f8}']),
        'Ừ' => Some(seq!['\u{f5}']),
        'Ử' => Some(seq!['\u{f6}']),
        'Ữ' => Some(seq!['\u{f7}']),
        'Ự' => Some(seq!['\u{f9}']),
        'Ý' => Some(seq!['\u{fd}']),
        'Ỳ' => Some(seq!['\u{fa}']),
        'Ỷ' => Some(seq!['\u{fb}']),
        'Ỹ' => Some(seq!['\u{fc}']),
        'Ỵ' => Some(seq!['\u{fe}']),
        _ => None,
    }
}
/// The VNI Windows code of a Vietnamese letter.
pub open spec fn vni_code(c: char) -> Option<Seq<char>> {
    match c {
        'đ' => Some(seq!['\u{f1}']),
        'â' => Some(seq!['a', '\u{e2}']),
        'ă' => Some(seq!['a', '\u{ea}']),
        'ê' => Some(seq!['e', '\u{e2}']),
        'ô' => Some(seq!['o', '\u{e2}']),
        'ơ' => Some(seq!['\u{f4}']),
        'ư' => Some(seq!['\u{f6}']),
        'á' => Some(seq!['a', '\u{f9}']),
        'à' => Some(seq!['a', '\u{f8}']),
        'ả' => Some(seq!['a', '\u{fb}']),
        'ã' => Some(seq!['a', '\u{f5}']),
        'ạ' => Some(seq!['a', '\u{ef}']),
        'ấ' => Some(seq!['a', '\u{e1}']),
        'ầ' => Some(seq!['a', '\u{e0}']),
        'ẩ' => Some(seq!['a', '\u{e5}']),
        'ẫ' => Some(seq!['a', '\u{e3}']),
        'ậ' => Some(seq!['a', '\u{e4}']),
        'ắ' => Some(seq!['a', '\u{e9}']),
        'ằ' => Some(seq!['a', '\u{e8}']),
        'ẳ' => Some(seq!['a', '\u{fa}']),
        'ẵ' => Some(seq!['a', '\u{fc}']),
        'ặ' => Some(seq!['a', '\u{eb}']),
        'é' => Some(seq!['e', '\u{f9}']),
        'è' => Some(seq!['e', '\u{f8}']),
        'ẻ' => Some(seq!['e', '\u{fb}']),
        'ẽ' => Some(seq!['e', '\u{f5}']),
        'ẹ' => Some(seq!['e', '\u{ef}']),
        'ế' => Some(seq!['e', '\u{e1}']),
        'ề' => Some(seq!['e', '\u{e0}']),
        'ể' => Some(seq!['e', '\u{e5}']),
        'ễ' => Some(seq!['e', '\u{e3}']),
        'ệ' => Some(seq!['e', '\u{e4}']),
        'í' => Some(seq!['\u{ed}']),
        'ì' => Some(seq!['\u{ec}']),
        'ỉ' => Some(seq!['\u{e6}']),
        'ĩ' => Some(seq!['\u{f3}']),
        'ị' => Some(seq!['\u{f2}']),
        'ó' => Some(seq!['o', '\u{f9}']),
        'ò' => Some(seq!['o', '\u{f8}']),
        'ỏ' => Some(seq!['o', '\u{fb}']),
        'õ' => Some(seq!['o', '\u{f5}']),
        'ọ' => Some(seq!['o', '\u{ef}']),
        'ố' => Some(seq!['o', '\u{e1}']),
        'ồ' => Some(seq!['o', '\u{e0}']),
        'ổ' => Some(seq!['o', '\u{e5}']),
        'ỗ' => Some(seq!['o', '\u{e3}']),
        'ộ' => Some(seq!['o', '\u{e4}']),
        'ớ' => Some(seq!['\u{f4}', '\u{f9}']),
        'ờ' => Some(seq!['\u{f4}', '\u{f8}']),
        'ở' => Some(seq!['\u{f4}', '\u{fb}']),
        'ỡ' => Some(seq!['\u{f4}', '\u{f5}']),
        'ợ' => Some(seq!['\u{f4}', '\u{ef}']),
        'ú' => Some(seq!['u', '\u{f9}']),
        'ù' => Some(seq!['u', '\u{f8}']),
        'ủ' => Some(seq!['u', '\u{fb}']),
        'ũ' => Some(seq!['u', '\u{f5}']),
        'ụ' => Some(seq!['u', '\u{ef}']),
        'ứ' => Some(seq!['\u{f6}', '\u{f9}']),
        'ừ' => Some(seq!['\u{f6}', '\u{f8}']),
        'ử' => Some(seq!['\u{f6}', '\u{fb}']),
        'ữ' => Some(seq!['\u{f6}', '\u{f5}']),
        'ự' => Some(seq!['\u{f6}', '\u{ef}']),
        'ý' => Some(seq!['y', '\u{f9}']),
        'ỳ' => Some(seq!['y', '\u{f8}']),
        'ỷ' => Some(seq!['y', '\u{fb}']),
        'ỹ' => Some(seq!['y', '\u{f5}']),
        'ỵ' => Some(seq!['\u{ee}']),
        'Đ' => Some(seq!['\u{d1}']),
        'Â' => Some(seq!['A', '\u{c2}']),
        'Ă' => Some(seq!['A', '\u{ca}']),
        'Ê' => Some(seq!['E', '\u{c2}']),
        'Ô' => Some(seq!['O', '\u{c2}']),
        'Ơ' => Some(seq!['\u{d4}']),
        'Ư' => Some(seq!['\u{d6}']),
        'Á' => Some(seq!['A', '\u{d9}']),
        'À' => Some(seq!['A', '\u{d8}']),
        'Ả' => Some(seq!['A', '\u{db}']),
        'Ã' => Some(seq!['A', '\u{d5}']),
        'Ạ' => Some(seq!['A', '\u{cf}']),
        'Ấ' => Some(seq!['A', '\u{c1}']),
        'Ầ' => Some(seq!['A', '\u{c0}']),
        'Ẩ' => Some(seq!['A', '\u{c5}']),
        'Ẫ' => Some(seq!['A', '\u{c3}']),
        'Ậ' => Some(seq!['A', '\u{c4}']),
        'Ắ' => Some(seq!['A', '\u{c9}']),
        'Ằ' => Some(seq!['A', '\u{c8}']),
        'Ẳ' => Some(seq!['A', '\u{da}']),
        'Ẵ' => Some(seq!['A', '\u{dc}']),
        'Ặ' => Some(seq!['A', '\u{cb}']),
        'É' => Some(seq!['E', '\u{d9}']),
        'È' => Some(seq!['E', '\u{d8}']),
        'Ẻ' => Some(seq!['E', '\u{db}']),
        'Ẽ' => Some(seq!['E', '\u{d5}']),
        'Ẹ' => Some(seq!['E', '\u{cf}']),
        'Ế' => Some(seq!['E', '\u{c1}']),
        'Ề' => Some(seq!['E', '\u{c0}']),
        'Ể' => Some(seq!['E', '\u{c5}']),
        'Ễ' => Some(seq!['E', '\u{c3}']),
        'Ệ' => Some(seq!['E', '\u{c4}']),
        'Í' => Some(seq!['\u{cd}']),
        'Ì' => Some(seq!['\u{cc}']),
        'Ỉ' => Some(seq!['\u{c6}']),
        'Ĩ' => Some(seq!['\u{d3}']),
        'Ị' => Some(seq!['\u{d2}']),
        'Ó' => Some(seq!['O', '\u{d9}']),
        'Ò' => Some(seq!['O', '\u{d8}']),
        'Ỏ' => Some(seq!['O', '\u{db}']),
        'Õ' => Some(seq!['O', '\u{d5}']),
        'Ọ' => Some(seq!['O', '\u{cf}']),
        'Ố' => Some(seq!['O', '\u{c1}']),
        'Ồ' => Some(seq!['O', '\u{c0}']),
        'Ổ' => Some(seq!['O', '\u{c5}']),
        'Ỗ' => Some(seq!['O', '\u{c3}']),
        'Ộ' => Some(seq!['O', '\u{c4}']),
        'Ớ' => Some(seq!['\u{d4}', '\u{d9}']),
        'Ờ' => Some(seq!['\u{d4}', '\u{d8}']),
        'Ở' => Some(seq!['\u{d4}', '\u{db}']),
        'Ỡ' => Some(seq!['\u{d4}', '\u{d5}']),
        'Ợ' => Some(seq!['\u{d4}', '\u{cf}']),
        'Ú' => Some(seq!['U', '\u{d9}']),
        'Ù' => Some(seq!['U', '\u{d8}']),
        'Ủ' => Some(seq!['U', '\u{db}']),
        'Ũ' => Some(seq!['U', '\u{d5}']),
        'Ụ' => Some(seq!['U', '\u{cf}']),
        'Ứ' => Some(seq!['\u{d6}', '\u{d9}']),
        'Ừ' => Some(seq!['\u{d6}', '\u{d8}']),
        'Ử' => Some(seq!['\u{d6}', '\u{db}']),
        'Ữ' => Some(seq!['\u{d6}', '\u{d5}']),
        'Ự' => Some(seq!['\u{d6}', '\u{cf}']),
        'Ý' => Some(seq!['Y', '\u{d9}']),
        'Ỳ' => Some(seq!['Y', '\u{d8}']),
        'Ỷ' => Some(seq!['Y', '\u{db}']),
        'Ỹ' => Some(seq!['Y', '\u{d5}']),
        'Ỵ' => Some(seq!['\u{ce}']),
        _ => None,
    }
}
/// The VIQR spelling of a Vietnamese letter.
pub open spec fn viqr_code(c: char) -> Option<Seq<char>> {
    match c {
        'đ' => Some(seq!['d', 'd']),
        'â' => Some(seq!['a', '^']),
        'ă' => Some(seq!['a', '(']),
        'ê' => Some(seq!['e', '^']),
        'ô' => Some(seq!['o', '^']),
        'ơ' => Some(seq!['o', '+']),
        'ư' => Some(seq!['u', '+']),
        'á' => Some(seq!['a', '\'']),
        'à' => Some(seq!['a', '`']),
        'ả' => Some(seq!['a', '?']),
        'ã' => Some(seq!['a', '~']),
        'ạ' => Some(seq!['a', '.']),
        'ấ' => Some(seq!['a', '^', '\'']),
        'ầ' => Some(seq!['a', '^', '`']),
        'ẩ' => Some(seq!['a', '^', '?']),
        'ẫ' => Some(seq!['a', '^', '~']),
        'ậ' => Some(seq!['a', '^', '.']),
        'ắ' => Some(seq!['a', '(', '\'']),
        'ằ' => Some(seq!['a', '(', '`']),
        'ẳ' => Some(seq!['a', '(', '?']),
        'ẵ' => Some(seq!['a', '(', '~']),
        'ặ' => Some(seq!['a', '(', '.']),
        'é' => Some(seq!['e', '\'']),
        'è' => Some(seq!['e', '`']),
        'ẻ' => Some(seq!['e', '?']),
        'ẽ' => Some(seq!['e', '~']),
        'ẹ' => Some(seq!['e', '.']),
        'ế' => Some(seq!['e', '^', '\'']),
        'ề' => Some(seq!['e', '^', '`']),
        'ể' => Some(seq!['e', '^', '?']),
        'ễ' => Some(seq!['e', '^', '~']),
        'ệ' => Some(seq!['e', '^', '.']),
        'í' => Some(seq!['i', '\'']),
        'ì' => Some(seq!['i', '`']),
        'ỉ' => Some(seq!['i', '?']),
        'ĩ' => Some(seq!['i', '~']),
        'ị' => Some(seq!['i', '.']),
        'ó' => Some(seq!['o', '\'']),
        'ò' => Some(seq!['o', '`']),
        'ỏ' => Some(seq!['o', '?']),
        'õ' => Some(seq!['o', '~']),
        'ọ' => Some(seq!['o', '.']),
        'ố' => Some(seq!['o', '^', '\'']),
        'ồ' => Some(seq!['o', '^', '`']),
        'ổ' => Some(seq!['o', '^', '?']),
        'ỗ' => Some(seq!['o', '^', '~']),
        'ộ' => Some(seq!['o', '^', '.']),
        'ớ' => Some(seq!['o', '+', '\'']),
        'ờ' => Some(seq!['o', '+', '`']),
        'ở' => Some(seq!['o', '+', '?']),
        'ỡ' => Some(seq!['o', '+', '~']),
        'ợ' => Some(seq!['o', '+', '.']),
        'ú' => Some(seq!['u', '\'']),
        'ù' => Some(seq!['u', '`']),
        'ủ' => Some(seq!['u', '?']),
        'ũ' => Some(seq!['u', '~']),
        'ụ' => Some(seq!['u', '.']),
        'ứ' => Some(seq!['u', '+', '\'']),
        'ừ' => Some(seq!['u', '+', '`']),
        'ử' => Some(seq!['u', '+', '?']),
        'ữ' => Some(seq!['u', '+', '~']),
        'ự' => Some(seq!['u', '+', '.']),
        'ý' => Some(seq!['y', '\'']),
        'ỳ' => Some(seq!['y', '`']),
        'ỷ' => Some(seq!['y', '?']),
        'ỹ' => Some(seq!['y', '~']),
        'ỵ' => Some(seq!['y', '.']),
        'Đ' => Some(seq!['D', 'D']),
        'Â' => Some(seq!['A', '^']),
        'Ă' => Some(seq!['A', '(']),
        'Ê' => Some(seq!['E', '^']),
        'Ô' => Some(seq!['O', '^']),
        'Ơ' => Some(seq!['O', '+']),
        'Ư' => Some(seq!['U', '+']),
        'Á' => Some(seq!['A', '\'']),
        'À' => Some(seq!['A', '`']),
        'Ả' => Some(seq!['A', '?']),
        'Ã' => Some(seq!['A', '~']),
        'Ạ' => Some(seq!['A', '.']),
        'Ấ' => Some(seq!['A', '^', '\'']),
        'Ầ' => Some(seq!['A', '^', '`']),
        'Ẩ' => Some(seq!['A', '^', '?']),
        'Ẫ' => Some(seq!['A', '^', '~']),
        'Ậ' => Some(seq!['A', '^', '.']),
        'Ắ' => Some(seq!['A', '(', '\'']),
        'Ằ' => Some(seq!['A', '(', '`']),
        'Ẳ' => Some(seq!['A', '(', '?']),
        'Ẵ' => Some(seq!['A', '(', '~']),
        'Ặ' => Some(seq!['A', '(', '.']),
        'É' => Some(seq!['E', '\'']),
        'È' => Some(seq!['E', '`']),
        'Ẻ' => Some(seq!['E', '?']),
        'Ẽ' => Some(seq!['E', '~']),
        'Ẹ' => Some(seq!['E', '.']),
        'Ế' => Some(seq!['E', '^', '\'']),
        'Ề' => Some(seq!['E', '^', '`']),
        'Ể' => Some(seq!['E', '^', '?']),
        'Ễ' => Some(seq!['E', '^', '~']),
        'Ệ' => Some(seq!['E', '^', '.']),
        'Í' => Some(seq!['I', '\'']),
        'Ì' => Some(seq!['I', '`']),
        'Ỉ' => Some(seq!['I', '?']),
        'Ĩ' => Some(seq!['I', '~']),
        'Ị' => Some(seq!['I', '.']),
        'Ó' => Some(seq!['O', '\'']),
        'Ò' => Some(seq!['O', '`']),
        'Ỏ' => Some(seq!['O', '?']),
        'Õ' => Some(seq!['O', '~']),
        'Ọ' => Some(seq!['O', '.']),
        'Ố' => Some(seq!['O', '^', '\'']),
        'Ồ' => Some(seq!['O', '^', '`']),
        'Ổ' => Some(seq!['O', '^', '?']),
        'Ỗ' => Some(seq!['O', '^', '~']),
        'Ộ' => Some(seq!['O', '^', '.']),
        'Ớ' => Some(seq!['O', '+', '\'']),
        'Ờ' => Some(seq!['O', '+', '`']),
        'Ở' => Some(seq!['O', '+', '?']),
        'Ỡ' => Some(seq!['O', '+', '~']),
        'Ợ' => Some(seq!['O', '+', '.']),
        'Ú' => Some(seq!['U', '\'']),
        'Ù' => Some(seq!['U', '`']),
        'Ủ' => Some(seq!['U', '?']),
        'Ũ' => Some(seq!['U', '~']),
        'Ụ' => Some(seq!['U', '.']),
        'Ứ' => Some(seq!['U', '+', '\'']),
        'Ừ' => Some(seq!['U', '+', '`']),
        'Ử' => Some(seq!['U', '+', '?']),
        'Ữ' => Some(seq!['U', '+', '~']),
        'Ự' => Some(seq!['U', '+', '.']),
        'Ý' => Some(seq!['Y', '\'']),
        'Ỳ' => Some(seq!['Y', '`']),
        'Ỷ' => Some(seq!['Y', '?']),
        'Ỹ' => Some(seq!['Y', '~']),
        'Ỵ' => Some(seq!['Y', '.']),
        _ => None,
    }
}

fn tcvn3_lookup(c: char) -> (r: Option<Vec<char>>)
    ensures
        r is None <==> tcvn3_code(c) is None,
        r matches Some(v) ==> v@ == tcvn3_code(c)->0,
{
    let r = match c {
        'đ' => Some(vec!['\u{ae}']),
        'â' => Some(vec!['\u{a9}']),
        'ă' => Some(vec!['\u{a8}']),
        'ê' => Some(vec!['\u{aa}']),
        'ô' => Some(vec!['\u{ab}']),
        'ơ' => Some(vec!['\u{ac}']),
        'ư' => Some(vec!['\u{ad}']),
        'á' => Some(vec!['\u{b8}']),
        'à' => Some(vec!['\u{b5}']),
        'ả' => Some(vec!['\u{b6}']),
        'ã' => Some(vec!['\u{b7}']),
        'ạ' => Some(vec!['\u{b9}']),
        'ấ' => Some(vec!['\u{ca}']),
        'ầ' => Some(vec!['\u{c7}']),
        'ẩ' => Some(vec!['\u{c8}']),
        'ẫ' => Some(vec!['\u{c9}']),
        'ậ' => Some(vec!['\u{cb}']),
        'ắ' => Some(vec!['\u{be}']),
        'ằ' => Some(vec!['\u{bb}']),
        'ẳ' => Some(vec!['\u{bc}']),
        'ẵ' => Some(vec!['\u{bd}']),
        'ặ' => Some(vec!['\u{c6}']),
        'é' => Some(vec!['\u{d0}']),
        'è' => Some(vec!['\u{cc}']),
        'ẻ' => Some(vec!['\u{ce}']),
        'ẽ' => Some(vec!['\u{cf}']),
        'ẹ' => Some(vec!['\u{d1}']),
        'ế' => Some(vec!['\u{d5}']),
        'ề' => Some(vec!['\u{d2}']),
        'ể' => Some(vec!['\u{d3}']),
        'ễ' => Some(vec!['\u{d4}']),
        'ệ' => Some(vec!['\u{d6}']),
        'í' => Some(vec!['\u{dd}']),
        'ì' => Some(vec!['\u{d7}']),
        'ỉ' => Some(vec!['\u{d8}']),
        'ĩ' => Some(vec!['\u{dc}']),
        'ị' => Some(vec!['\u{de}']),
        'ó' => Some(vec!['\u{e3}']),
        'ò' => Some(vec!['\u{df}']),
        'ỏ' => Some(vec!['\u{e1}']),
        'õ' => Some(vec!['\u{e2}']),
        'ọ' => Some(vec!['\u{e4}']),
        'ố' => Some(vec!['\u{e8}']),
        'ồ' => Some(vec!['\u{e5}']),
        'ổ' => Some(vec!['\u{e6}']),
        'ỗ' => Some(vec!['\u{e7}']),
        'ộ' => Some(vec!['\u{e9}']),
        'ớ' => Some(vec!['\u{ed}']),
        'ờ' => Some(vec!['\u{ea}']),
        'ở' => Some(vec!['\u{eb}']),
        'ỡ' => Some(vec!['\u{ec}']),
        'ợ' => Some(vec!['\u{ee}']),
        'ú' => Some(vec!['\u{f3}']),
        'ù' => Some(vec!['\u{ef}']),
        'ủ' => Some(vec!['\u{f1}']),
        'ũ' => Some(vec!['\u{f2}']),
        'ụ' => Some(vec!['\u{f4}']),
        'ứ' => Some(vec!['\u{f8}']),
        'ừ' => Some(vec!['\u{f5}']),
        'ử' => Some(vec!['\u{f6}']),
        'ữ' => Some(vec!['\u{f7}']),
        'ự' => Some(vec!['\u{f9}']),
        'ý' => Some(vec!['\u{fd}']),
        'ỳ' => Some(vec!['\u{fa}']),
        'ỷ' => Some(vec!['\u{fb}']),
        'ỹ' => Some(vec!['\u{fc}']),
        'ỵ' => Some(vec!['\u{fe}']),
        'Đ' => Some(vec!['\u{a7}']),
        'Â' => Some(vec!['\u{a2}']),
        'Ă' => Some(vec!['\u{a1}']),
        'Ê' => Some(vec!['\u{a3}']),
        'Ô' => Some(vec!['\u{a4}']),
        'Ơ' => Some(vec!['\u{a5}']),
        'Ư' => Some(vec!['\u{a6}']),
        'Á' => Some(vec!['\u{b8}']),
        'À' => Some(vec!['\u{b5}']),
        'Ả' => Some(vec!['\u{b6}']),
        'Ã' => Some(vec!['\u{b7}']),
        'Ạ' => Some(vec!['\u{b9}']),
        'Ấ' => Some(vec!['\u{ca}']),
        'Ầ' => Some(vec!['\u{c7}']),
        'Ẩ' => Some(vec!['\u{c8}']),
        'Ẫ' => Some(vec!['\u{c9}']),
        'Ậ' => Some(vec!['\u{cb}']),
        'Ắ' => Some(vec!['\u{be}']),
        'Ằ' => Some(vec!['\u{bb}']),
        'Ẳ' => Some(vec!['\u{bc}']),
        'Ẵ' => Some(vec!['\u{bd}']),
        'Ặ' => Some(vec!['\u{c6}']),
        'É' => Some(vec!['\u{d0}']),
        'È' => Some(vec!['\u{cc}']),
        'Ẻ' => Some(vec!['\u{ce}']),
        'Ẽ' => Some(vec!['\u{cf}']),
        'Ẹ' => Some(vec!['\u{d1}']),
        'Ế' => Some(vec!['\u{d5}']),
        'Ề' => Some(vec!['\u{d2}']),
        'Ể' => Some(vec!['\u{d3}']),
        'Ễ' => Some(vec!['\u{d4}']),
        'Ệ' => Some(vec!['\u{d6}']),
        'Í' => Some(vec!['\u{dd}']),
        'Ì' => Some(vec!['\u{d7}']),
        'Ỉ' => Some(vec!['\u{d8}']),
        'Ĩ' => Some(vec!['\u{dc}']),
        'Ị' => Some(vec!['\u{de}']),
        'Ó' => Some(vec!['\u{e3}']),
        'Ò' => Some(vec!['\u{df}']),
        'Ỏ' => Some(vec!['\u{e1}']),
        'Õ' => Some(vec!['\u{e2}']),
        'Ọ' => Some(vec!['\u{e4}']),
        'Ố' => Some(vec!['\u{e8}']),
        'Ồ' => Some(vec!['\u{e5}']),
        'Ổ' => Some(vec!['\u{e6}']),
        'Ỗ' => Some(vec!['\u{e7}']),
        'Ộ' => Some(vec!['\u{e9}']),
        'Ớ' => Some(vec!['\u{ed}']),
        'Ờ' => Some(vec!['\u{ea}']),
        'Ở' => Some(vec!['\u{eb}']),
        'Ỡ' => Some(vec!['\u{ec}']),
        'Ợ' => Some(vec!['\u{ee}']),
        'Ú' => Some(vec!['\u{f3}']),
        'Ù' => Some(vec!['\u{ef}']),
        'Ủ' => Some(vec!['\u{f1}']),
        'Ũ' => Some(vec!['\u{f2}']),
        'Ụ' => Some(vec!['\u{f4}']),
        'Ứ' => Some(vec!['\u{f8}']),
        'Ừ' => Some(vec!['\u{f5}']),
        'Ử' => Some(vec!['\u{f6}']),
        'Ữ' => Some(vec!['\u{f7}']),
        'Ự' => Some(vec!['\u{f9}']),
        'Ý' => Some(vec!['\u{fd}']),
        'Ỳ' => Some(vec!['\u{fa}']),
        'Ỷ' => Some(vec!['\u{fb}']),
        'Ỹ' => Some(vec!['\u{fc}']),
        'Ỵ' => Some(vec!['\u{fe}']),
        _ => None,
    };
    proof {
        if r is Some {
            assert(r->0@ =~= tcvn3_code(c)->0);
        }
    }
    r
}

fn vni_lookup(c: char) -> (r: Option<Vec<char>>)
    ensures
        r is None <==> vni_code(c) is None,
        r matches Some(v) ==> v@ == vni_code(c)->0,
{
    let r = match c {
        'đ' => Some(vec!['\u{f1}']),
        'â' => Some(vec!['a', '\u{e2}']),
        'ă' => Some(vec!['a', '\u{ea}']),
        'ê' => Some(vec!['e', '\u{e2}']),
        'ô' => Some(vec!['o', '\u{e2}']),
        'ơ' => Some(vec!['\u{f4}']),
        'ư' => Some(vec!['\u{f6}']),
        'á' => Some(vec!['a', '\u{f9}']),
        'à' => Some(vec!['a', '\u{f8}']),
        'ả' => Some(vec!['a', '\u{fb}']),
        'ã' => Some(vec!['a', '\u{f5}']),
        'ạ' => Some(vec!['a', '\u{ef}']),
        'ấ' => Some(vec!['a', '\u{e1}']),
        'ầ' => Some(vec!['a', '\u{e0}']),
        'ẩ' => Some(vec!['a', '\u{e5}']),
        'ẫ' => Some(vec!['a', '\u{e3}']),
        'ậ' => Some(vec!['a', '\u{e4}']),
        'ắ' => Some(vec!['a', '\u{e9}']),
        'ằ' => Some(vec!['a', '\u{e8}']),
        'ẳ' => Some(vec!['a', '\u{fa}']),
        'ẵ' => Some(vec!['a', '\u{fc}']),
        'ặ' => Some(vec!['a', '\u{eb}']),
        'é' => Some(vec!['e', '\u{f9}']),
        'è' => Some(vec!['e', '\u{f8}']),
        'ẻ' => Some(vec!['e', '\u{fb}']),
        'ẽ' => Some(vec!['e', '\u{f5}']),
        'ẹ' => Some(vec!['e', '\u{ef}']),
        'ế' => Some(vec!['e', '\u{e1}']),
        'ề' => Some(vec!['e', '\u{e0}']),
        'ể' => Some(vec!['e', '\u{e5}']),
        'ễ' => Some(vec!['e', '\u{e3}']),
        'ệ' => Some(vec!['e', '\u{e4}']),
        'í' => Some(vec!['\u{ed}']),
        'ì' => Some(vec!['\u{ec}']),
        'ỉ' => Some(vec!['\u{e6}']),
        'ĩ' => Some(vec!['\u{f3}']),
        'ị' => Some(vec!['\u{f2}']),
        'ó' => Some(vec!['o', '\u{f9}']),
        'ò' => Some(vec!['o', '\u{f8}']),
        'ỏ' => Some(vec!['o', '\u{fb}']),
        'õ' => Some(vec!['o', '\u{f5}']),
        'ọ' => Some(vec!['o', '\u{ef}']),
        'ố' => Some(vec!['o', '\u{e1}']),
        'ồ' => Some(vec!['o', '\u{e0}']),
        'ổ' => Some(vec!['o', '\u{e5}']),
        'ỗ' => Some(vec!['o', '\u{e3}']),
        'ộ' => Some(vec!['o', '\u{e4}']),
        'ớ' => Some(vec!['\u{f4}', '\u{f9}']),
        'ờ' => Some(vec!['\u{f4}', '\u{f8}']),
        'ở' => Some(vec!['\u{f4}', '\u{fb}']),
        'ỡ' => Some(vec!['\u{f4}', '\u{f5}']),
        'ợ' => Some(vec!['\u{f4}', '\u{ef}']),
        'ú' => Some(vec!['u', '\u{f9}']),
        'ù' => Some(vec!['u', '\u{f8}']),
        'ủ' => Some(vec!['u', '\u{fb}']),
        'ũ' => Some(vec!['u', '\u{f5}']),
        'ụ' => Some(vec!['u', '\u{ef}']),
        'ứ' => Some(vec!['\u{f6}', '\u{f9}']),
        'ừ' => Some(vec!['\u{f6}', '\u{f8}']),
        'ử' => Some(vec!['\u{f6}', '\u{fb}']),
        'ữ' => Some(vec!['\u{f6}', '\u{f5}']),
        'ự' => Some(vec!['\u{f6}', '\u{ef}']),
        'ý' => Some(vec!['y', '\u{f9}']),
        'ỳ' => Some(vec!['y', '\u{f8}']),
        'ỷ' => Some(vec!['y', '\u{fb}']),
        'ỹ' => Some(vec!['y', '\u{f5}']),
        'ỵ' => Some(vec!['\u{ee}']),
        'Đ' => Some(vec!['\u{d1}']),
        'Â' => Some(vec!['A', '\u{c2}']),
        'Ă' => Some(vec!['A', '\u{ca}']),
        'Ê' => Some(vec!['E', '\u{c2}']),
        'Ô' => Some(vec!['O', '\u{c2}']),
        'Ơ' => Some(vec!['\u{d4}']),
        'Ư' => Some(vec!['\u{d6}']),
        'Á' => Some(vec!['A', '\u{d9}']),
        'À' => Some(vec!['A', '\u{d8}']),
        'Ả' => Some(vec!['A', '\u{db}']),
        'Ã' => Some(vec!['A', '\u{d5}']),
        'Ạ' => Some(vec!['A', '\u{cf}']),
        'Ấ' => Some(vec!['A', '\u{c1}']),
        'Ầ' => Some(vec!['A', '\u{c0}']),
        'Ẩ' => Some(vec!['A', '\u{c5}']),
        'Ẫ' => Some(vec!['A', '\u{c3}']),
        'Ậ' => Some(vec!['A', '\u{c4}']),
        'Ắ' => Some(vec!['A', '\u{c9}']),
        'Ằ' => Some(vec!['A', '\u{c8}']),
        'Ẳ' => Some(vec!['A', '\u{da}']),
        'Ẵ' => Some(vec!['A', '\u{dc}']),
        'Ặ' => Some(vec!['A', '\u{cb}']),
        'É' => Some(vec!['E', '\u{d9}']),
        'È' => Some(vec!['E', '\u{d8}']),
        'Ẻ' => Some(vec!['E', '\u{db}']),
        'Ẽ' => Some(vec!['E', '\u{d5}']),
        'Ẹ' => Some(vec!['E', '\u{cf}']),
        'Ế' => Some(vec!['E', '\u{c1}']),
        'Ề' => Some(vec!['E', '\u{c0}']),
        'Ể' => Some(vec!['E', '\u{c5}']),
        'Ễ' => Some(vec!['E', '\u{c3}']),
        'Ệ' => Some(vec!['E', '\u{c4}']),
        'Í' => Some(vec!['\u{cd}']),
        'Ì' => Some(vec!['\u{cc}']),
        'Ỉ' => Some(vec!['\u{c6}']),
        'Ĩ' => Some(vec!['\u{d3}']),
        'Ị' => Some(vec!['\u{d2}']),
        'Ó' => Some(vec!['O', '\u{d9}']),
        'Ò' => Some(vec!['O', '\u{d8}']),
        'Ỏ' => Some(vec!['O', '\u{db}']),
        'Õ' => Some(vec!['O', '\u{d5}']),
        'Ọ' => Some(vec!['O', '\u{cf}']),
        'Ố' => Some(vec!['O', '\u{c1}']),
        'Ồ' => Some(vec!['O', '\u{c0}']),
        'Ổ' => Some(vec!['O', '\u{c5}']),
        'Ỗ' => Some(vec!['O', '\u{c3}']),
        'Ộ' => Some(vec!['O', '\u{c4}']),
        'Ớ' => Some(vec!['\u{d4}', '\u{d9}']),
        'Ờ' => Some(vec!['\u{d4}', '\u{d8}']),
        'Ở' => Some(vec!['\u{d4}', '\u{db}']),
        'Ỡ' => Some(vec!['\u{d4}', '\u{d5}']),
        'Ợ' => Some(vec!['\u{d4}', '\u{cf}']),
        'Ú' => Some(vec!['U', '\u{d9}']),
        'Ù' => Some(vec!['U', '\u{d8}']),
        'Ủ' => Some(vec!['U', '\u{db}']),
        'Ũ' => Some(vec!['U', '\u{d5}']),
        'Ụ' => Some(vec!['U', '\u{cf}']),
        'Ứ' => Some(vec!['\u{d6}', '\u{d9}']),
        'Ừ' => Some(vec!['\u{d6}', '\u{d8}']),
        'Ử' => Some(vec!['\u{d6}', '\u{db}']),
        'Ữ' => Some(vec!['\u{d6}', '\u{d5}']),
        'Ự' => Some(vec!['\u{d6}', '\u{cf}']),
        'Ý' => Some(vec!['Y', '\u{d9}']),
        'Ỳ' => Some(vec!['Y', '\u{d8}']),
        'Ỷ' => Some(vec!['Y', '\u{db}']),
        'Ỹ' => Some(vec!['Y', '\u{d5}']),
        'Ỵ' => Some(vec!['\u{ce}']),
        _ => None,
    };
    proof {
        if r is Some {
            assert(r->0@ =~= vni_code(c)->0);
        }
    }
    r
}

fn viqr_lookup(c: char) -> (r: Option<Vec<char>>)
    ensures
        r is None <==> viqr_code(c) is None,
        r matches Some(v) ==> v@ == viqr_code(c)->0,
{
    let r = match c {
        'đ' => Some(vec!['d', 'd']),
        'â' => Some(vec!['a', '^']),
        'ă' => Some(vec!['a', '(']),
        'ê' => Some(vec!['e', '^']),
        'ô' => Some(vec!['o', '^']),
        'ơ' => Some(vec!['o', '+']),
        'ư' => Some(vec!['u', '+']),
        'á' => Some(vec!['a', '\'']),
        'à' => Some(vec!['a', '`']),
        'ả' => Some(vec!['a', '?']),
        'ã' => Some(vec!['a', '~']),
        'ạ' => Some(vec!['a', '.']),
        'ấ' => Some(vec!['a', '^', '\'']),
        'ầ' => Some(vec!['a', '^', '`']),
        'ẩ' => Some(vec!['a', '^', '?']),
        'ẫ' => Some(vec!['a', '^', '~']),
        'ậ' => Some(vec!['a', '^', '.']),
        'ắ' => Some(vec!['a', '(', '\'']),
        'ằ' => Some(vec!['a', '(', '`']),
        'ẳ' => Some(vec!['a', '(', '?']),
        'ẵ' => Some(vec!['a', '(', '~']),
        'ặ' => Some(vec!['a', '(', '.']),
        'é' => Some(vec!['e', '\'']),
        'è' => Some(vec!['e', '`']),
        'ẻ' => Some(vec!['e', '?']),
        'ẽ' => Some(vec!['e', '~']),
        'ẹ' => Some(vec!['e', '.']),
        'ế' => Some(vec!['e', '^', '\'']),
        'ề' => Some(vec!['e', '^', '`']),
        'ể' => Some(vec!['e', '^', '?']),
        'ễ' => Some(vec!['e', '^', '~']),
        'ệ' => Some(vec!['e', '^', '.']),
        'í' => Some(vec!['i', '\'']),
        'ì' => Some(vec!['i', '`']),
        'ỉ' => Some(vec!['i', '?']),
        'ĩ' => Some(vec!['i', '~']),
        'ị' => Some(vec!['i', '.']),
        'ó' => Some(vec!['o', '\'']),
        'ò' => Some(vec!['o', '`']),
        'ỏ' => Some(vec!['o', '?']),
        'õ' => Some(vec!['o', '~']),
        'ọ' => Some(vec!['o', '.']),
        'ố' => Some(vec!['o', '^', '\'']),
        'ồ' => Some(vec!['o', '^', '`']),
        'ổ' => Some(vec!['o', '^', '?']),
        'ỗ' => Some(vec!['o', '^', '~']),
        'ộ' => Some(vec!['o', '^', '.']),
        'ớ' => Some(vec!['o', '+', '\'']),
        'ờ' => Some(vec!['o', '+', '`']),
        'ở' => Some(vec!['o', '+', '?']),
        'ỡ' => Some(vec!['o', '+', '~']),
        'ợ' => Some(vec!['o', '+', '.']),
        'ú' => Some(vec!['u', '\'']),
        'ù' => Some(vec!['u', '`']),
        'ủ' => Some(vec!['u', '?']),
        'ũ' => Some(vec!['u', '~']),
        'ụ' => Some(vec!['u', '.']),
        'ứ' => Some(vec!['u', '+', '\'']),
        'ừ' => Some(vec!['u', '+', '`']),
        'ử' => Some(vec!['u', '+', '?']),
        'ữ' => Some(vec!['u', '+', '~']),
        'ự' => Some(vec!['u', '+', '.']),
        'ý' => Some(vec!['y', '\'']),
        'ỳ' => Some(vec!['y', '`']),
        'ỷ' => Some(vec!['y', '?']),
        'ỹ' => Some(vec!['y', '~']),
        'ỵ' => Some(vec!['y', '.']),
        'Đ' => Some(vec!['D', 'D']),
        'Â' => Some(vec!['A', '^']),
        'Ă' => Some(vec!['A', '(']),
        'Ê' => Some(vec!['E', '^']),
        'Ô' => Some(vec!['O', '^']),
        'Ơ' => Some(vec!['O', '+']),
        'Ư' => Some(vec!['U', '+']),
        'Á' => Some(vec!['A', '\'']),
        'À' => Some(vec!['A', '`']),
        'Ả' => Some(vec!['A', '?']),
        'Ã' => Some(vec!['A', '~']),
        'Ạ' => Some(vec!['A', '.']),
        'Ấ' => Some(vec!['A', '^', '\'']),
        'Ầ' => Some(vec!['A', '^', '`']),
        'Ẩ' => Some(vec!['A', '^', '?']),
        'Ẫ' => Some(vec!['A', '^', '~']),
        'Ậ' => Some(vec!['A', '^', '.']),
        'Ắ' => Some(vec!['A', '(', '\'']),
        'Ằ' => Some(vec!['A', '(', '`']),
        'Ẳ' => Some(vec!['A', '(', '?']),
        'Ẵ' => Some(vec!['A', '(', '~']),
        'Ặ' => Some(vec!['A', '(', '.']),
        'É' => Some(vec!['E', '\'']),
        'È' => Some(vec!['E', '`']),
        'Ẻ' => Some(vec!['E', '?']),
        'Ẽ' => Some(vec!['E', '~']),
        'Ẹ' => Some(vec!['E', '.']),
        'Ế' => Some(vec!['E', '^', '\'']),
        'Ề' => Some(vec!['E', '^', '`']),
        'Ể' => Some(vec!['E', '^', '?']),
        'Ễ' => Some(vec!['E', '^', '~']),
        'Ệ' => Some(vec!['E', '^', '.']),
        'Í' => Some(vec!['I', '\'']),
        'Ì' => Some(vec!['I', '`']),
        'Ỉ' => Some(vec!['I', '?']),
        'Ĩ' => Some(vec!['I', '~']),
        'Ị' => Some(vec!['I', '.']),
        'Ó' => Some(vec!['O', '\'']),
        'Ò' => Some(vec!['O', '`']),
        'Ỏ' => Some(vec!['O', '?']),
        'Õ' => Some(vec!['O', '~']),
        'Ọ' => Some(vec!['O', '.']),
        'Ố' => Some(vec!['O', '^', '\'']),
        'Ồ' => Some(vec!['O', '^', '`']),
        'Ổ' => Some(vec!['O', '^', '?']),
        'Ỗ' => Some(vec!['O', '^', '~']),
        'Ộ' => Some(vec!['O', '^', '.']),
        'Ớ' => Some(vec!['O', '+', '\'']),
        'Ờ' => Some(vec!['O', '+', '`']),
        'Ở' => Some(vec!['O', '+', '?']),
        'Ỡ' => Some(vec!['O', '+', '~']),
        'Ợ' => Some(vec!['O', '+', '.']),
        'Ú' => Some(vec!['U', '\'']),
        'Ù' => Some(vec!['U', '`']),
        'Ủ' => Some(vec!['U', '?']),
        'Ũ' => Some(vec!['U', '~']),
        'Ụ' => Some(vec!['U', '.']),
        'Ứ' => Some(vec!['U', '+', '\'']),
        'Ừ' => Some(vec!['U', '+', '`']),
        'Ử' => Some(vec!['U', '+', '?']),
        'Ữ' => Some(vec!['U', '+', '~']),
        'Ự' => Some(vec!['U', '+', '.']),
        'Ý' => Some(vec!['Y', '\'']),
        'Ỳ' => Some(vec!['Y', '`']),
        'Ỷ' => Some(vec!['Y', '?']),
        'Ỹ' => Some(vec!['Y', '~']),
        'Ỵ' => Some(vec!['Y', '.']),
        _ => None,
    };
    proof {
        if r is Some {
            assert(r->0@ =~= viqr_code(c)->0);
        }
    }
    r
}

/// The code of a character in a charset: its entry in the charset's table, or the character
/// itself when the table has none (and always in Unicode).
pub open spec fn char_code(charset: CharsetEncoding, c: char) -> Seq<char> {
    let entry = match charset {
        CharsetEncoding::Unicode => None,
        CharsetEncoding::Tcvn3 => tcvn3_code(c),
        CharsetEncoding::VniWindows => vni_code(c),
        CharsetEncoding::Viqr => viqr_code(c),
    };
    match entry {
        Some(code) => code,
        None => seq![c],
    }
}

/// A text encoded in a charset: the codes of its characters, one after the other.
pub open spec fn spec_encode(charset: CharsetEncoding, s: Seq<char>) -> Seq<char>
    decreases s.len(),
{
    if s.len() == 0 {
        Seq::empty()
    } else {
        spec_encode(charset, s.drop_last()) + char_code(charset, s.last())
    }
}

/// Encodes a Unicode Vietnamese string to the specified charset encoding.
///
/// For `CharsetEncoding::Unicode`, the input string is returned as-is (identity operation).
/// For other encodings, each Vietnamese character is looked up in the corresponding mapping table
/// and replaced with its encoded representation. Non-Vietnamese characters (ASCII, digits,
/// punctuation) are passed through unchanged.
pub fn encode(charset: &CharsetEncoding, input: &str) -> (r: String)
    ensures
        r@ == spec_encode(*charset, input@),
{
    match charset {
        CharsetEncoding::Unicode => {
            proof {
                lemma_encode_unicode(input@);
            }
            string_from_str(input)
        },
        _ => encode_with_map(*charset, input),
    }
}

/// Encodes a text character by character with the table of a charset.
fn encode_with_map(charset: CharsetEncoding, input: &str) -> (r: String)
    ensures
        r@ == spec_encode(charset, input@),
{
    let chars = chars_of(input);
    let mut output: Vec<char> = Vec::new();
    let mut i: usize = 0;
    while i < chars.len()
        invariant
            i <= chars@.len(),
            chars@ == input@,
            output@ == spec_encode(charset, chars@.take(i as int)),
        decreases chars@.len() - i,
    {
        let c = chars[i];
        let entry = match charset {
            CharsetEncoding::Unicode => None,
            CharsetEncoding::Tcvn3 => tcvn3_lookup(c),
            CharsetEncoding::VniWindows => vni_lookup(c),
            CharsetEncoding::Viqr => viqr_lookup(c),
        };
        let ghost before = output@;
        match entry {
            Some(code) => {
                let mut k: usize = 0;
                while k < code.len()
                    invariant
                        k <= code@.len(),
                        output@ == before + code@.take(k as int),
                    decreases code@.len() - k,
                {
                    output.push(code[k]);
                    assert(code@.take(k + 1) == code@.take(k as int).push(code@[k as int]));
                    k = k + 1;
                }
                assert(code@.take(code@.len() as int) == code@);
            },
            None => {
                output.push(c);
            },
        }
        assert(chars@.take(i + 1).drop_last() == chars@.take(i as int));
        assert(output@ =~= spec_encode(charset, chars@.take(i + 1)));
        i = i + 1;
    }
    assert(chars@.take(chars@.len() as int) == chars@);
    string_of(&output)
}

/// Encoding in Unicode changes nothing.
pub proof fn lemma_encode_unicode(s: Seq<char>)
    ensures
        spec_encode(CharsetEncoding::Unicode, s) == s,
    decreases s.len(),
{
    if s.len() > 0 {
        lemma_encode_unicode(s.drop_last());
        assert(s.drop_last().push(s.last()) =~= s);
    }
}

/// Encoding a concatenation is concatenating the encodings.
pub proof fn lemma_encode_concat(charset: CharsetEncoding, a: Seq<char>, b: Seq<char>)
    ensures
        spec_encode(charset, a + b) == spec_encode(charset, a) + spec_encode(charset, b),
    decreases b.len(),
{
    if b.len() == 0 {
        assert(a + b =~= a);
        assert(spec_encode(charset, a) + spec_encode(charset, b) =~= spec_encode(charset, a));
    } else {
        lemma_encode_concat(charset, a, b.drop_last());
        assert((a + b).drop_last() =~= a + b.drop_last());
        assert((a + b).last() == b.last());
        assert(spec_encode(charset, a + b) =~= spec_encode(charset, a) + spec_encode(charset, b));
    }
}

/// No table holds an ASCII character: its code is the character itself.
pub proof fn lemma_ascii_code(charset: CharsetEncoding, c: char)
    requires
        (c as u32) < 128,
    ensures
        char_code(charset, c) == seq![c],
{
}

/// A text of ASCII characters is encoded as itself, in every charset.
pub proof fn lemma_encode_ascii(charset: CharsetEncoding, s: Seq<char>)
    requires
        forall|i: int| 0 <= i < s.len() ==> (#[trigger] s[i] as u32) < 128,
    ensures
        spec_encode(charset, s) == s,
    decreases s.len(),
{
    if s.len() > 0 {
        lemma_encode_ascii(charset, s.drop_last());
        lemma_ascii_code(charset, s.last());
        assert(s.drop_last().push(s.last()) =~= s);
    }
}


/// Every charset is found again by its short name.
pub proof fn law_charset_name_round_trip(c: CharsetEncoding)
    ensures
        charset_by_name(spec_short_name(c)) == Some(c),
{
    reveal_strlit("Unicode");
    reveal_strlit("TCVN3");
    reveal_strlit("VNI");
    reveal_strlit("VIQR");
    assert("Unicode"@.len() == 7);
    assert("TCVN3"@.len() == 5);
    assert("VNI"@.len() == 3);
    assert("VIQR"@.len() == 4);
}

/// The list of charsets holds every charset exactly once.
pub proof fn law_all_charsets(c: CharsetEncoding)
    ensures
        all_charsets().len() == 4,
        exists|i: int| 0 <= i < 4 && all_charsets()[i] == c,
        forall|i: int, j: int| 0 <= i < j < 4 ==> all_charsets()[i] != all_charsets()[j],
{
    match c {
        CharsetEncoding::Unicode => assert(all_charsets()[0] == c),
        CharsetEncoding::Tcvn3 => assert(all_charsets()[1] == c),
        CharsetEncoding::VniWindows => assert(all_charsets()[2] == c),
        CharsetEncoding::Viqr => assert(all_charsets()[3] == c),
    }
}

/// The VIQR sign of a tone, by its number (none, grave, acute, hook, tilde, dot below).
pub open spec fn viqr_tone_sign(t: int) -> Seq<char> {
    if t == 1 {
        seq!['`']
    } else if t == 2 {
        seq!['\'']
    } else if t == 3 {
        seq!['?']
    } else if t == 4 {
        seq!['~']
    } else if t == 5 {
        seq!['.']
    } else {
        Seq::empty()
    }
}

/// The VIQR spelling of a toneless vowel, by its row of the vowel table (a ă â e ê i o ô ơ
/// u ư y): the base letter, then `(` for the breve, `^` for the circumflex or `+` for the
/// horn; in upper case when `upper`.
pub open spec fn viqr_row_code(k: int, upper: bool) -> Seq<char> {
    let base = if k <= 2 {
        if upper { 'A' } else { 'a' }
    } else if k <= 4 {
        if upper { 'E' } else { 'e' }
    } else if k == 5 {
        if upper { 'I' } else { 'i' }
    } else if k <= 8 {
        if upper { 'O' } else { 'o' }
    } else if k <= 10 {
        if upper { 'U' } else { 'u' }
    } else {
        if upper { 'Y' } else { 'y' }
    };
    let sign: Seq<char> = if k == 1 {
        seq!['(']
    } else if k == 2 || k == 4 || k == 7 {
        seq!['^']
    } else if k == 8 || k == 10 {
        seq!['+']
    } else {
        Seq::empty()
    };
    seq![base] + sign
}

/// Whether the VIQR codes of the vowel at a position of the table, in both cases, are its
/// base letter, the sign of its mark and the sign of its tone.
pub open spec fn viqr_vowel_ok(i: int) -> bool {
    &&& char_code(CharsetEncoding::Viqr, crate::charset::vowel_at(i)) == viqr_row_code(i / 6, false) + viqr_tone_sign(i % 6)
    &&& char_code(CharsetEncoding::Viqr, crate::charset::upper_vowel_at(i)) == viqr_row_code(i / 6, true) + viqr_tone_sign(i % 6)
}

proof fn lemma_viqr_row_0()
    ensures
        forall|t: int| 0 <= t < 6 ==> #[trigger] viqr_vowel_ok(0 + t),
{
    assert(char_code(CharsetEncoding::Viqr, crate::charset::vowel_at(0)) =~= viqr_row_code(0, false) + viqr_tone_sign(0));
    assert(char_code(CharsetEncoding::Viqr, crate::charset::upper_vowel_at(0)) =~= viqr_row_code(0, true) + viqr_tone_sign(0));
    assert(char_code(CharsetEncoding::Viqr, crate::charset::vowel_at(1)) =~= viqr_row_code(0, false) + viqr_tone_sign(1));
    assert(char_code(CharsetEncoding::Viqr, crate::charset::upper_vowel_at(1)) =~= viqr_row_code(0, true) + viqr_tone_sign(1));
    assert(char_code(CharsetEncoding::Viqr, crate::charset::vowel_at(2)) =~= viqr_row_code(0, false) + viqr_tone_sign(2));
    assert(char_code(CharsetEncoding::Viqr, crate::charset::upper_vowel_at(2)) =~= viqr_row_code(0, true) + viqr_tone_sign(2));
    assert(char_code(CharsetEncoding::Viqr, crate::charset::vowel_at(3)) =~= viqr_row_code(0, false) + viqr_tone_sign(3));
    assert(char_code(CharsetEncoding::Viqr, crate::charset::upper_vowel_at(3)) =~= viqr_row_code(0, true) + viqr_tone_sign(3));
    assert(char_code(CharsetEncoding::Viqr, crate::charset::vowel_at(4)) =~= viqr_row_code(0, false) + viqr_tone_sign(4));
    assert(char_code(CharsetEncoding::Viqr, crate::charset::upper_vowel_at(4)) =~= viqr_row_code(0, true) + viqr_tone_sign(4));
    assert(char_code(CharsetEncoding::Viqr, crate::charset::vowel_at(5)) =~= viqr_row_code(0, false) + viqr_tone_sign(5));
    assert(char_code(CharsetEncoding::Viqr, crate::charset::upper_vowel_at(5)) =~= viqr_row_code(0, true) + viqr_tone_sign(5));
    assert forall|t: int| 0 <= t < 6 implies #[trigger] viqr_vowel_ok(0 + t) by {
        assert(t == 0 || t == 1 || t == 2 || t == 3 || t == 4 || t == 5);
    }
}

proof fn lemma_viqr_row_1()
    ensures
        forall|t: int| 0 <= t < 6 ==> #[trigger] viqr_vowel_ok(6 + t),
{
    assert(char_code(CharsetEncoding::Viqr, crate::charset::vowel_at(6)) =~= viqr_row_code(1, false) + viqr_tone_sign(0));
    assert(char_code(CharsetEncoding::Viqr, crate::charset::upper_vowel_at(6)) =~= viqr_row_code(1, true) + viqr_tone_sign(0));
    assert(char_code(CharsetEncoding::Viqr, crate::charset::vowel_at(7)) =~= viqr_row_code(1, false) + viqr_tone_sign(1));
    assert(char_code(CharsetEncoding::Viqr, crate::charset::upper_vowel_at(7)) =~= viqr_row_code(1, true) + viqr_tone_sign(1));
    assert(char_code(CharsetEncoding::Viqr, crate::charset::vowel_at(8)) =~= viqr_row_code(1, false) + viqr_tone_sign(2));
    assert(char_code(CharsetEncoding::Viqr, crate::charset::upper_vowel_at(8)) =~= viqr_row_code(1, true) + viqr_tone_sign(2));
    assert(char_code(CharsetEncoding::Viqr, crate::charset::vowel_at(9)) =~= viqr_row_code(1, false) + viqr_tone_sign(3));
    assert(char_code(CharsetEncoding::Viqr, crate::charset::upper_vowel_at(9)) =~= viqr_row_code(1, true) + viqr_tone_sign(3));
    assert(char_code(CharsetEncoding::Viqr, crate::charset::vowel_at(10)) =~= viqr_row_code(1, false) + viqr_tone_sign(4));
    assert(char_code(CharsetEncoding::Viqr, crate::charset::upper_vowel_at(10)) =~= viqr_row_code(1, true) + viqr_tone_sign(4));
    assert(char_code(CharsetEncoding::Viqr, crate::charset::vowel_at(11)) =~= viqr_row_code(1, false) + viqr_tone_sign(5));
    assert(char_code(CharsetEncoding::Viqr, crate::charset::upper_vowel_at(11)) =~= viqr_row_code(1, true) + viqr_tone_sign(5));
    assert forall|t: int| 0 <= t < 6 implies #[trigger] viqr_vowel_ok(6 + t) by {
        assert(t == 0 || t == 1 || t == 2 || t == 3 || t == 4 || t == 5);
    }
}

proof fn lemma_viqr_row_2()
    ensures
        forall|t: int| 0 <= t < 6 ==> #[trigger] viqr_vowel_ok(12 + t),
{
    assert(char_code(CharsetEncoding::Viqr, crate::charset::vowel_at(12)) =~= viqr_row_code(2, false) + viqr_tone_sign(0));
    assert(char_code(CharsetEncoding::Viqr, crate::charset::upper_vowel_at(12)) =~= viqr_row_code(2, true) + viqr_tone_sign(0));
    assert(char_code(CharsetEncoding::Viqr, crate::charset::vowel_at(13)) =~= viqr_row_code(2, false) + viqr_tone_sign(1));
    assert(char_code(CharsetEncoding::Viqr, crate::charset::upper_vowel_at(13)) =~= viqr_row_code(2, true) + viqr_tone_sign(1));
    assert(char_code(CharsetEncoding::Viqr, crate::charset::vowel_at(14)) =~= viqr_row_code(2, false) + viqr_tone_sign(2));
    assert(char_code(CharsetEncoding::Viqr, crate::charset::upper_vowel_at(14)) =~= viqr_row_code(2, true) + viqr_tone_sign(2));
    assert(char_code(CharsetEncoding::Viqr, crate::charset::vowel_at(15)) =~= viqr_row_code(2, false) + viqr_tone_sign(3));
    assert(char_code(CharsetEncoding::Viqr, crate::charset::upper_vowel_at(15)) =~= viqr_row_code(2, true) + viqr_tone_sign(3));
    assert(char_code(CharsetEncoding::Viqr, crate::charset::vowel_at(16)) =~= viqr_row_code(2, false) + viqr_tone_sign(4));
    assert(char_code(CharsetEncoding::Viqr, crate::charset::upper_vowel_at(16)) =~= viqr_row_code(2, true) + viqr_tone_sign(4));
    assert(char_code(CharsetEncoding::Viqr, crate::charset::vowel_at(17)) =~= viqr_row_code(2, false) + viqr_tone_sign(5));
    assert(char_code(CharsetEncoding::Viqr, crate::charset::upper_vowel_at(17)) =~= viqr_row_code(2, true) + viqr_tone_sign(5));
    assert forall|t: int| 0 <= t < 6 implies #[trigger] viqr_vowel_ok(12 + t) by {
        assert(t == 0 || t == 1 || t == 2 || t == 3 || t == 4 || t == 5);
    }
}

proof fn lemma_viqr_row_3()
    ensures
        forall|t: int| 0 <= t < 6 ==> #[trigger] viqr_vowel_ok(18 + t),
{
    assert(char_code(CharsetEncoding::Viqr, crate::charset::vowel_at(18)) =~= viqr_row_code(3, false) + viqr_tone_sign(0));
    assert(char_code(CharsetEncoding::Viqr, crate::charset::upper_vowel_at(18)) =~= viqr_row_code(3, true) + viqr_tone_sign(0));
    assert(char_code(CharsetEncoding::Viqr, crate::charset::vowel_at(19)) =~= viqr_row_code(3, false) + viqr_tone_sign(1));
    assert(char_code(CharsetEncoding::Viqr, crate::charset::upper_vowel_at(19)) =~= viqr_row_code(3, true) + viqr_tone_sign(1));
    assert(char_code(CharsetEncoding::Viqr, crate::charset::vowel_at(20)) =~= viqr_row_code(3, false) + viqr_tone_sign(2));
    assert(char_code(CharsetEncoding::Viqr, crate::charset::upper_vowel_at(20)) =~= viqr_row_code(3, true) + viqr_tone_sign(2));
    assert(char_code(CharsetEncoding::Viqr, crate::charset::vowel_at(21)) =~= viqr_row_code(3, false) + viqr_tone_sign(3));
    assert(char_code(CharsetEncoding::Viqr, crate::charset::upper_vowel_at(21)) =~= viqr_row_code(3, true) + viqr_tone_sign(3));
    assert(char_code(CharsetEncoding::Viqr, crate::charset::vowel_at(22)) =~= viqr_row_code(3, false) + viqr_tone_sign(4));
    assert(char_code(CharsetEncoding::Viqr, crate::charset::upper_vowel_at(22)) =~= viqr_row_code(3, true) + viqr_tone_sign(4));
    assert(char_code(CharsetEncoding::Viqr, crate::charset::vowel_at(23)) =~= viqr_row_code(3, false) + viqr_tone_sign(5));
    assert(char_code(CharsetEncoding::Viqr, crate::charset::upper_vowel_at(23)) =~= viqr_row_code(3, true) + viqr_tone_sign(5));
    assert forall|t: int| 0 <= t < 6 implies #[trigger] viqr_vowel_ok(18 + t) by {
        assert(t == 0 || t == 1 || t == 2 || t == 3 || t == 4 || t == 5);
    }
}

proof fn lemma_viqr_row_4()
    ensures
        forall|t: int| 0 <= t < 6 ==> #[trigger] viqr_vowel_ok(24 + t),
{
    assert(char_code(CharsetEncoding::Viqr, crate::charset::vowel_at(24)) =~= viqr_row_code(4, false) + viqr_tone_sign(0));
    assert(char_code(CharsetEncoding::Viqr, crate::charset::upper_vowel_at(24)) =~= viqr_row_code(4, true) + viqr_tone_sign(0));
    assert(char_code(CharsetEncoding::Viqr, crate::charset::vowel_at(25)) =~= viqr_row_code(4, false) + viqr_tone_sign(1));
    assert(char_code(CharsetEncoding::Viqr, crate::charset::upper_vowel_at(25)) =~= viqr_row_code(4, true) + viqr_tone_sign(1));
    assert(char_code(CharsetEncoding::Viqr, crate::charset::vowel_at(26)) =~= viqr_row_code(4, false) + viqr_tone_sign(2));
    assert(char_code(CharsetEncoding::Viqr, crate::charset::upper_vowel_at(26)) =~= viqr_row_code(4, true) + viqr_tone_sign(2));
    assert(char_code(CharsetEncoding::Viqr, crate::charset::vowel_at(27)) =~= viqr_row_code(4, false) + viqr_tone_sign(3));
    assert(char_code(CharsetEncoding::Viqr, crate::charset::upper_vowel_at(27)) =~= viqr_row_code(4, true) + viqr_tone_sign(3));
    assert(char_code(CharsetEncoding::Viqr, crate::charset::vowel_at(28)) =~= viqr_row_code(4, false) + viqr_tone_sign(4));
    assert(char_code(CharsetEncoding::Viqr, crate::charset::upper_vowel_at(28)) =~= viqr_row_code(4, true) + viqr_tone_sign(4));
    assert(char_code(CharsetEncoding::Viqr, crate::charset::vowel_at(29)) =~= viqr_row_code(4, false) + viqr_tone_sign(5));
    assert(char_code(CharsetEncoding::Viqr, crate::charset::upper_vowel_at(29)) =~= viqr_row_code(4, true) + viqr_tone_sign(5));
    assert forall|t: int| 0 <= t < 6 implies #[trigger] viqr_vowel_ok(24 + t) by {
        assert(t == 0 || t == 1 || t == 2 || t == 3 || t == 4 || t == 5);
    }
}

proof fn lemma_viqr_row_5()
    ensures
        forall|t: int| 0 <= t < 6 ==> #[trigger] viqr_vowel_ok(30 + t),
{
    assert(char_code(CharsetEncoding::Viqr, crate::charset::vowel_at(30)) =~= viqr_row_code(5, false) + viqr_tone_sign(0));
    assert(char_code(CharsetEncoding::Viqr, crate::charset::upper_vowel_at(30)) =~= viqr_row_code(5, true) + viqr_tone_sign(0));
    assert(char_code(CharsetEncoding::Viqr, crate::charset::vowel_at(31)) =~= viqr_row_code(5, false) + viqr_tone_sign(1));
    assert(char_code(CharsetEncoding::Viqr, crate::charset::upper_vowel_at(31)) =~= viqr_row_code(5, true) + viqr_tone_sign(1));
    assert(char_code(CharsetEncoding::Viqr, crate::charset::vowel_at(32)) =~= viqr_row_code(5, false) + viqr_tone_sign(2));
    assert(char_code(CharsetEncoding::Viqr, crate::charset::upper_vowel_at(32)) =~= viqr_row_code(5, true) + viqr_tone_sign(2));
    assert(char_code(CharsetEncoding::Viqr, crate::charset::vowel_at(33)) =~= viqr_row_code(5, false) + viqr_tone_sign(3));
    assert(char_code(CharsetEncoding::Viqr, crate::charset::upper_vowel_at(33)) =~= viqr_row_code(5, true) + viqr_tone_sign(3));
    assert(char_code(CharsetEncoding::Viqr, crate::charset::vowel_at(34)) =~= viqr_row_code(5, false) + viqr_tone_sign(4));
    assert(char_code(CharsetEncoding::Viqr, crate::charset::upper_vowel_at(34)) =~= viqr_row_code(5, true) + viqr_tone_sign(4));
    assert(char_code(CharsetEncoding::Viqr, crate::charset::vowel_at(35)) =~= viqr_row_code(5, false) + viqr_tone_sign(5));
    assert(char_code(CharsetEncoding::Viqr, crate::charset::upper_vowel_at(35)) =~= viqr_row_code(5, true) + viqr_tone_sign(5));
    assert forall|t: int| 0 <= t < 6 implies #[trigger] viqr_vowel_ok(30 + t) by {
        assert(t == 0 || t == 1 || t == 2 || t == 3 || t == 4 || t == 5);
    }
}

proof fn lemma_viqr_row_6()
    ensures
        forall|t: int| 0 <= t < 6 ==> #[trigger] viqr_vowel_ok(36 + t),
{
    assert(char_code(CharsetEncoding::Viqr, crate::charset::vowel_at(36)) =~= viqr_row_code(6, false) + viqr_tone_sign(0));
    assert(char_code(CharsetEncoding::Viqr, crate::charset::upper_vowel_at(36)) =~= viqr_row_code(6, true) + viqr_tone_sign(0));
    assert(char_code(CharsetEncoding::Viqr, crate::charset::vowel_at(37)) =~= viqr_row_code(6, false) + viqr_tone_sign(1));
    assert(char_code(CharsetEncoding::Viqr, crate::charset::upper_vowel_at(37)) =~= viqr_row_code(6, true) + viqr_tone_sign(1));
    assert(char_code(CharsetEncoding::Viqr, crate::charset::vowel_at(38)) =~= viqr_row_code(6, false) + viqr_tone_sign(2));
    assert(char_code(CharsetEncoding::Viqr, crate::charset::upper_vowel_at(38)) =~= viqr_row_code(6, true) + viqr_tone_sign(2));
    assert(char_code(CharsetEncoding::Viqr, crate::charset::vowel_at(39)) =~= viqr_row_code(6, false) + viqr_tone_sign(3));
    assert(char_code(CharsetEncoding::Viqr, crate::charset::upper_vowel_at(39)) =~= viqr_row_code(6, true) + viqr_tone_sign(3));
    assert(char_code(CharsetEncoding::Viqr, crate::charset::vowel_at(40)) =~= viqr_row_code(6, false) + viqr_tone_sign(4));
    assert(char_code(CharsetEncoding::Viqr, crate::charset::upper_vowel_at(40)) =~= viqr_row_code(6, true) + viqr_tone_sign(4));
    assert(char_code(CharsetEncoding::Viqr, crate::charset::vowel_at(41)) =~= viqr_row_code(6, false) + viqr_tone_sign(5));
    assert(char_code(CharsetEncoding::Viqr, crate::charset::upper_vowel_at(41)) =~= viqr_row_code(6, true) + viqr_tone_sign(5));
    assert forall|t: int| 0 <= t < 6 implies #[trigger] viqr_vowel_ok(36 + t) by {
        assert(t == 0 || t == 1 || t == 2 || t == 3 || t == 4 || t == 5);
    }
}

proof fn lemma_viqr_row_7()
    ensures
        forall|t: int| 0 <= t < 6 ==> #[trigger] viqr_vowel_ok(42 + t),
{
    assert(char_code(CharsetEncoding::Viqr, crate::charset::vowel_at(42)) =~= viqr_row_code(7, false) + viqr_tone_sign(0));
    assert(char_code(CharsetEncoding::Viqr, crate::charset::upper_vowel_at(42)) =~= viqr_row_code(7, true) + viqr_tone_sign(0));
    assert(char_code(CharsetEncoding::Viqr, crate::charset::vowel_at(43)) =~= viqr_row_code(7, false) + viqr_tone_sign(1));
    assert(char_code(CharsetEncoding::Viqr, crate::charset::upper_vowel_at(43)) =~= viqr_row_code(7, true) + viqr_tone_sign(1));
    assert(char_code(CharsetEncoding::Viqr, crate::charset::vowel_at(44)) =~= viqr_row_code(7, false) + viqr_tone_sign(2));
    assert(char_code(CharsetEncoding::Viqr, crate::charset::upper_vowel_at(44)) =~= viqr_row_code(7, true) + viqr_tone_sign(2));
    assert(char_code(CharsetEncoding::Viqr, crate::charset::vowel_at(45)) =~= viqr_row_code(7, false) + viqr_tone_sign(3));
    assert(char_code(CharsetEncoding::Viqr, crate::charset::upper_vowel_at(45)) =~= viqr_row_code(7, true) + viqr_tone_sign(3));
    assert(char_code(CharsetEncoding::Viqr, crate::charset::vowel_at(46)) =~= viqr_row_code(7, false) + viqr_tone_sign(4));
    assert(char_code(CharsetEncoding::Viqr, crate::charset::upper_vowel_at(46)) =~= viqr_row_code(7, true) + viqr_tone_sign(4));
    assert(char_code(CharsetEncoding::Viqr, crate::charset::vowel_at(47)) =~= viqr_row_code(7, false) + viqr_tone_sign(5));
    assert(char_code(CharsetEncoding::Viqr, crate::charset::upper_vowel_at(47)) =~= viqr_row_code(7, true) + viqr_tone_sign(5));
    assert forall|t: int| 0 <= t < 6 implies #[trigger] viqr_vowel_ok(42 + t) by {
        assert(t == 0 || t == 1 || t == 2 || t == 3 || t == 4 || t == 5);
    }
}

proof fn lemma_viqr_row_8()
    ensures
        forall|t: int| 0 <= t < 6 ==> #[trigger] viqr_vowel_ok(48 + t),
{
    assert(char_code(CharsetEncoding::Viqr, crate::charset::vowel_at(48)) =~= viqr_row_code(8, false) + viqr_tone_sign(0));
    assert(char_code(CharsetEncoding::Viqr, crate::charset::upper_vowel_at(48)) =~= viqr_row_code(8, true) + viqr_tone_sign(0));
    assert(char_code(CharsetEncoding::Viqr, crate::charset::vowel_at(49)) =~= viqr_row_code(8, false) + viqr_tone_sign(1));
    assert(char_code(CharsetEncoding::Viqr, crate::charset::upper_vowel_at(49)) =~= viqr_row_code(8, true) + viqr_tone_sign(1));
    assert(char_code(CharsetEncoding::Viqr, crate::charset::vowel_at(50)) =~= viqr_row_code(8, false) + viqr_tone_sign(2));
    assert(char_code(CharsetEncoding::Viqr, crate::charset::upper_vowel_at(50)) =~= viqr_row_code(8, true) + viqr_tone_sign(2));
    assert(char_code(CharsetEncoding::Viqr, crate::charset::vowel_at(51)) =~= viqr_row_code(8, false) + viqr_tone_sign(3));
    assert(char_code(CharsetEncoding::Viqr, crate::charset::upper_vowel_at(51)) =~= viqr_row_code(8, true) + viqr_tone_sign(3));
    assert(char_code(CharsetEncoding::Viqr, crate::charset::vowel_at(52)) =~= viqr_row_code(8, false) + viqr_tone_sign(4));
    assert(char_code(CharsetEncoding::Viqr, crate::charset::upper_vowel_at(52)) =~= viqr_row_code(8, true) + viqr_tone_sign(4));
    assert(char_code(CharsetEncoding::Viqr, crate::charset::vowel_at(53)) =~= viqr_row_code(8, false) + viqr_tone_sign(5));
    assert(char_code(CharsetEncoding::Viqr, crate::charset::upper_vowel_at(53)) =~= viqr_row_code(8, true) + viqr_tone_sign(5));
    assert forall|t: int| 0 <= t < 6 implies #[trigger] viqr_vowel_ok(48 + t) by {
        assert(t == 0 || t == 1 || t == 2 || t == 3 || t == 4 || t == 5);
    }
}

proof fn lemma_viqr_row_9()
    ensures
        forall|t: int| 0 <= t < 6 ==> #[trigger] viqr_vowel_ok(54 + t),
{
    assert(char_code(CharsetEncoding::Viqr, crate::charset::vowel_at(54)) =~= viqr_row_code(9, false) + viqr_tone_sign(0));
    assert(char_code(CharsetEncoding::Viqr, crate::charset::upper_vowel_at(54)) =~= viqr_row_code(9, true) + viqr_tone_sign(0));
    assert(char_code(CharsetEncoding::Viqr, crate::charset::vowel_at(55)) =~= viqr_row_code(9, false) + viqr_tone_sign(1));
    assert(char_code(CharsetEncoding::Viqr, crate::charset::upper_vowel_at(55)) =~= viqr_row_code(9, true) + viqr_tone_sign(1));
    assert(char_code(CharsetEncoding::Viqr, crate::charset::vowel_at(56)) =~= viqr_row_code(9, false) + viqr_tone_sign(2));
    assert(char_code(CharsetEncoding::Viqr, crate::charset::upper_vowel_at(56)) =~= viqr_row_code(9, true) + viqr_tone_sign(2));
    assert(char_code(CharsetEncoding::Viqr, crate::charset::vowel_at(57)) =~= viqr_row_code(9, false) + viqr_tone_sign(3));
    assert(char_code(CharsetEncoding::Viqr, crate::charset::upper_vowel_at(57)) =~= viqr_row_code(9, true) + viqr_tone_sign(3));
    assert(char_code(CharsetEncoding::Viqr, crate::charset::vowel_at(58)) =~= viqr_row_code(9, false) + viqr_tone_sign(4));
    assert(char_code(CharsetEncoding::Viqr, crate::charset::upper_vowel_at(58)) =~= viqr_row_code(9, true) + viqr_tone_sign(4));
    assert(char_code(CharsetEncoding::Viqr, crate::charset::vowel_at(59)) =~= viqr_row_code(9, false) + viqr_tone_sign(5));
    assert(char_code(CharsetEncoding::Viqr, crate::charset::upper_vowel_at(59)) =~= viqr_row_code(9, true) + viqr_tone_sign(5));
    assert forall|t: int| 0 <= t < 6 implies #[trigger] viqr_vowel_ok(54 + t) by {
        assert(t == 0 || t == 1 || t == 2 || t == 3 || t == 4 || t == 5);
    }
}

proof fn lemma_viqr_row_10()
    ensures
        forall|t: int| 0 <= t < 6 ==> #[trigger] viqr_vowel_ok(60 + t),
{
    assert(char_code(CharsetEncoding::Viqr, crate::charset::vowel_at(60)) =~= viqr_row_code(10, false) + viqr_tone_sign(0));
    assert(char_code(CharsetEncoding::Viqr, crate::charset::upper_vowel_at(60)) =~= viqr_row_code(10, true) + viqr_tone_sign(0));
    assert(char_code(CharsetEncoding::Viqr, crate::charset::vowel_at(61)) =~= viqr_row_code(10, false) + viqr_tone_sign(1));
    assert(char_code(CharsetEncoding::Viqr, crate::charset::upper_vowel_at(61)) =~= viqr_row_code(10, true) + viqr_tone_sign(1));
    assert(char_code(CharsetEncoding::Viqr, crate::charset::vowel_at(62)) =~= viqr_row_code(10, false) + viqr_tone_sign(2));
    assert(char_code(CharsetEncoding::Viqr, crate::charset::upper_vowel_at(62)) =~= viqr_row_code(10, true) + viqr_tone_sign(2));
    assert(char_code(CharsetEncoding::Viqr, crate::charset::vowel_at(63)) =~= viqr_row_code(10, false) + viqr_tone_sign(3));
    assert(char_code(CharsetEncoding::Viqr, crate::charset::upper_vowel_at(63)) =~= viqr_row_code(10, true) + viqr_tone_sign(3));
    assert(char_code(CharsetEncoding::Viqr, crate::charset::vowel_at(64)) =~= viqr_row_code(10, false) + viqr_tone_sign(4));
    assert(char_code(CharsetEncoding::Viqr, crate::charset::upper_vowel_at(64)) =~= viqr_row_code(10, true) + viqr_tone_sign(4));
    assert(char_code(CharsetEncoding::Viqr, crate::charset::vowel_at(65)) =~= viqr_row_code(10, false) + viqr_tone_sign(5));
    assert(char_code(CharsetEncoding::Viqr, crate::charset::upper_vowel_at(65)) =~= viqr_row_code(10, true) + viqr_tone_sign(5));
    assert forall|t: int| 0 <= t < 6 implies #[trigger] viqr_vowel_ok(60 + t) by {
        assert(t == 0 || t == 1 || t == 2 || t == 3 || t == 4 || t == 5);
    }
}

proof fn lemma_viqr_row_11()
    ensures
        forall|t: int| 0 <= t < 6 ==> #[trigger] viqr_vowel_ok(66 + t),
{
    assert(char_code(CharsetEncoding::Viqr, crate::charset::vowel_at(66)) =~= viqr_row_code(11, false) + viqr_tone_sign(0));
    assert(char_code(CharsetEncoding::Viqr, crate::charset::upper_vowel_at(66)) =~= viqr_row_code(11, true) + viqr_tone_sign(0));
    assert(char_code(CharsetEncoding::Viqr, crate::charset::vowel_at(67)) =~= viqr_row_code(11, false) + viqr_tone_sign(1));
    assert(char_code(CharsetEncoding::Viqr, crate::charset::upper_vowel_at(67)) =~= viqr_row_code(11, true) + viqr_tone_sign(1));
    assert(char_code(CharsetEncoding::Viqr, crate::charset::vowel_at(68)) =~= viqr_row_code(11, false) + viqr_tone_sign(2));
    assert(char_code(CharsetEncoding::Viqr, crate::charset::upper_vowel_at(68)) =~= viqr_row_code(11, true) + viqr_tone_sign(2));
    assert(char_code(CharsetEncoding::Viqr, crate::charset::vowel_at(69)) =~= viqr_row_code(11, false) + viqr_tone_sign(3));
    assert(char_code(CharsetEncoding::Viqr, crate::charset::upper_vowel_at(69)) =~= viqr_row_code(11, true) + viqr_tone_sign(3));
    assert(char_code(CharsetEncoding::Viqr, crate::charset::vowel_at(70)) =~= viqr_row_code(11, false) + viqr_tone_sign(4));
    assert(char_code(CharsetEncoding::Viqr, crate::charset::upper_vowel_at(70)) =~= viqr_row_code(11, true) + viqr_tone_sign(4));
    assert(char_code(CharsetEncoding::Viqr, crate::charset::vowel_at(71)) =~= viqr_row_code(11, false) + viqr_tone_sign(5));
    assert(char_code(CharsetEncoding::Viqr, crate::charset::upper_vowel_at(71)) =~= viqr_row_code(11, true) + viqr_tone_sign(5));
    assert forall|t: int| 0 <= t < 6 implies #[trigger] viqr_vowel_ok(66 + t) by {
        assert(t == 0 || t == 1 || t == 2 || t == 3 || t == 4 || t == 5);
    }
}

proof fn lemma_viqr_all(i: int)
    requires
        0 <= i < 72,
    ensures
        viqr_vowel_ok(i),
{
    lemma_viqr_row_0();
    lemma_viqr_row_1();
    lemma_viqr_row_2();
    lemma_viqr_row_3();
    lemma_viqr_row_4();
    lemma_viqr_row_5();
    lemma_viqr_row_6();
    lemma_viqr_row_7();
    lemma_viqr_row_8();
    lemma_viqr_row_9();
    lemma_viqr_row_10();
    lemma_viqr_row_11();
    let k = i / 6;
    assert(i == 6 * k + i % 6);
    assert(viqr_vowel_ok(6 * k + i % 6));
}

/// The VIQR code of every Vietnamese vowel, in either case, is its base letter, then the
/// sign of its mark, then the sign of its tone; `đ` is `dd` and `Đ` is `DD`.
pub proof fn law_viqr_codes()
    ensures
        forall|i: int| 0 <= i < 72 ==> #[trigger] char_code(CharsetEncoding::Viqr, crate::charset::vowel_at(i))
            == viqr_row_code(i / 6, false) + viqr_tone_sign(i % 6),
        forall|i: int| 0 <= i < 72 ==> #[trigger] char_code(CharsetEncoding::Viqr, crate::charset::upper_vowel_at(i))
            == viqr_row_code(i / 6, true) + viqr_tone_sign(i % 6),
        char_code(CharsetEncoding::Viqr, 'đ') == seq!['d', 'd'],
        char_code(CharsetEncoding::Viqr, 'Đ') == seq!['D', 'D'],
{
    assert forall|i: int| 0 <= i < 72 implies #[trigger] char_code(CharsetEncoding::Viqr, crate::charset::vowel_at(i))
        == viqr_row_code(i / 6, false) + viqr_tone_sign(i % 6) by {
        lemma_viqr_all(i);
    }
    assert forall|i: int| 0 <= i < 72 implies #[trigger] char_code(CharsetEncoding::Viqr, crate::charset::upper_vowel_at(i))
        == viqr_row_code(i / 6, true) + viqr_tone_sign(i % 6) by {
        lemma_viqr_all(i);
    }
}

} // verus!
