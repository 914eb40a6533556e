//! Vietnamese letters: the vowel table with its tones, the families of letters that differ
//! only by a diacritic mark, punctuation, and the helpers that move a letter between forms.

use vstd::prelude::*;
use crate::text::{char_first_lowercase, first_lowercase};

verus! {

/// Number of entries of the vowel table: twelve vowel letters, each in six tones.
pub const VOWEL_COUNT: usize = 72;

/// The vowel table, entry by entry. It comes in groups of six entries that share a base
/// letter; inside a group the position is the tone: none, grave, acute, hook above, tilde,
/// dot below.
pub open spec fn vowel_at(i: int) -> char {
        if i == 0 { 'a' } else
        if i == 1 { 'à' } else
        if i == 2 { 'á' } else
        if i == 3 { 'ả' } else
        if i == 4 { 'ã' } else
        if i == 5 { 'ạ' } else
        if i == 6 { 'ă' } else
        if i == 7 { 'ằ' } else
        if i == 8 { 'ắ' } else
        if i == 9 { 'ẳ' } else
        if i == 10 { 'ẵ' } else
        if i == 11 { 'ặ' } else
        if i == 12 { 'â' } else
        if i == 13 { 'ầ' } else
        if i == 14 { 'ấ' } else
        if i == 15 { 'ẩ' } else
        if i == 16 { 'ẫ' } else
        if i == 17 { 'ậ' } else
        if i == 18 { 'e' } else
        if i == 19 { 'è' } else
        if i == 20 { 'é' } else
        if i == 21 { 'ẻ' } else
        if i == 22 { 'ẽ' } else
        if i == 23 { 'ẹ' } else
        if i == 24 { 'ê' } else
        if i == 25 { 'ề' } else
        if i == 26 { 'ế' } else
        if i == 27 { 'ể' } else
        if i == 28 { 'ễ' } else
        if i == 29 { 'ệ' } else
        if i == 30 { 'i' } else
        if i == 31 { 'ì' } else
        if i == 32 { 'í' } else
        if i == 33 { 'ỉ' } else
        if i == 34 { 'ĩ' } else
        if i == 35 { 'ị' } else
        if i == 36 { 'o' } else
        if i == 37 { 'ò' } else
        if i == 38 { 'ó' } else
        if i == 39 { 'ỏ' } else
        if i == 40 { 'õ' } else
        if i == 41 { 'ọ' } else
        if i == 42 { 'ô' } else
        if i == 43 { 'ồ' } else
        if i == 44 { 'ố' } else
        if i == 45 { 'ổ' } else
        if i == 46 { 'ỗ' } else
        if i == 47 { 'ộ' } else
        if i == 48 { 'ơ' } else
        if i == 49 { 'ờ' } else
        if i == 50 { 'ớ' } else
        if i == 51 { 'ở' } else
        if i == 52 { 'ỡ' } else
        if i == 53 { 'ợ' } else
        if i == 54 { 'u' } else
        if i == 55 { 'ù' } else
        if i == 56 { 'ú' } else
        if i == 57 { 'ủ' } else
        if i == 58 { 'ũ' } else
        if i == 59 { 'ụ' } else
        if i == 60 { 'ư' } else
        if i == 61 { 'ừ' } else
        if i == 62 { 'ứ' } else
        if i == 63 { 'ử' } else
        if i == 64 { 'ữ' } else
        if i == 65 { 'ự' } else
        if i == 66 { 'y' } else
        if i == 67 { 'ỳ' } else
        if i == 68 { 'ý' } else
        if i == 69 { 'ỷ' } else
        if i == 70 { 'ỹ' } else
        if i == 71 { 'ỵ' } else
        { '\0' }
}

/// The upper-case form of each entry of the vowel table.
pub open spec fn upper_vowel_at(i: int) -> char {
        if i == 0 { 'A' } else
        if i == 1 { 'À' } else
        if i == 2 { 'Á' } else
        if i == 3 { 'Ả' } else
        if i == 4 { 'Ã' } else
        if i == 5 { 'Ạ' } else
        if i == 6 { 'Ă' } else
        if i == 7 { 'Ằ' } else
        if i == 8 { 'Ắ' } else
        if i == 9 { 'Ẳ' } else
        if i == 10 { 'Ẵ' } else
        if i == 11 { 'Ặ' } else
        if i == 12 { 'Â' } else
        if i == 13 { 'Ầ' } else
        if i == 14 { 'Ấ' } else
        if i == 15 { 'Ẩ' } else
        if i == 16 { 'Ẫ' } else
        if i == 17 { 'Ậ' } else
        if i == 18 { 'E' } else
        if i == 19 { 'È' } else
        if i == 20 { 'É' } else
        if i == 21 { 'Ẻ' } else
        if i == 22 { 'Ẽ' } else
        if i == 23 { 'Ẹ' } else
        if i == 24 { 'Ê' } else
        if i == 25 { 'Ề' } else
        if i == 26 { 'Ế' } else
        if i == 27 { 'Ể' } else
        if i == 28 { 'Ễ' } else
        if i == 29 { 'Ệ' } else
        if i == 30 { 'I' } else
        if i == 31 { 'Ì' } else
        if i == 32 { 'Í' } else
        if i == 33 { 'Ỉ' } else
        if i == 34 { 'Ĩ' } else
        if i == 35 { 'Ị' } else
        if i == 36 { 'O' } else
        if i == 37 { 'Ò' } else
        if i == 38 { 'Ó' } else
        if i == 39 { 'Ỏ' } else
        if i == 40 { 'Õ' } else
        if i == 41 { 'Ọ' } else
        if i == 42 { 'Ô' } else
        if i == 43 { 'Ồ' } else
        if i == 44 { 'Ố' } else
        if i == 45 { 'Ổ' } else
        if i == 46 { 'Ỗ' } else
        if i == 47 { 'Ộ' } else
        if i == 48 { 'Ơ' } else
        if i == 49 { 'Ờ' } else
        if i == 50 { 'Ớ' } else
        if i == 51 { 'Ở' } else
        if i == 52 { 'Ỡ' } else
        if i == 53 { 'Ợ' } else
        if i == 54 { 'U' } else
        if i == 55 { 'Ù' } else
        if i == 56 { 'Ú' } else
        if i == 57 { 'Ủ' } else
        if i == 58 { 'Ũ' } else
        if i == 59 { 'Ụ' } else
        if i == 60 { 'Ư' } else
        if i == 61 { 'Ừ' } else
        if i == 62 { 'Ứ' } else
        if i == 63 { 'Ử' } else
        if i == 64 { 'Ữ' } else
        if i == 65 { 'Ự' } else
        if i == 66 { 'Y' } else
        if i == 67 { 'Ỳ' } else
        if i == 68 { 'Ý' } else
        if i == 69 { 'Ỷ' } else
        if i == 70 { 'Ỹ' } else
        if i == 71 { 'Ỵ' } else
        { '\0' }
}

/// The vowel table as a sequence.
pub open spec fn vowels() -> Seq<char> {
    Seq::new(72, |i: int| vowel_at(i))
}

/// The position of a letter in the vowel table, if it is a vowel.
pub open spec fn vowel_index(c: char) -> Option<int> {
    match c {
        'a' => Some(0int),
        'à' => Some(1int),
        'á' => Some(2int),
        'ả' => Some(3int),
        'ã' => Some(4int),
        'ạ' => Some(5int),
        'ă' => Some(6int),
        'ằ' => Some(7int),
        'ắ' => Some(8int),
        'ẳ' => Some(9int),
        'ẵ' => Some(10int),
        'ặ' => Some(11int),
        'â' => Some(12int),
        'ầ' => Some(13int),
        'ấ' => Some(14int),
        'ẩ' => Some(15int),
        'ẫ' => Some(16int),
        'ậ' => Some(17int),
        'e' => Some(18int),
        'è' => Some(19int),
        'é' => Some(20int),
        'ẻ' => Some(21int),
        'ẽ' => Some(22int),
        'ẹ' => Some(23int),
        'ê' => Some(24int),
        'ề' => Some(25int),
        'ế' => Some(26int),
        'ể' => Some(27int),
        'ễ' => Some(28int),
        'ệ' => Some(29int),
        'i' => Some(30int),
        'ì' => Some(31int),
        'í' => Some(32int),
        'ỉ' => Some(33int),
        'ĩ' => Some(34int),
        'ị' => Some(35int),
        'o' => Some(36int),
        'ò' => Some(37int),
        'ó' => Some(38int),
        'ỏ' => Some(39int),
        'õ' => Some(40int),
        'ọ' => Some(41int),
        'ô' => Some(42int),
        'ồ' => Some(43int),
        'ố' => Some(44int),
        'ổ' => Some(45int),
        'ỗ' => Some(46int),
        'ộ' => Some(47int),
        'ơ' => Some(48int),
        'ờ' => Some(49int),
        'ớ' => Some(50int),
        'ở' => Some(51int),
        'ỡ' => Some(52int),
        'ợ' => Some(53int),
        'u' => Some(54int),
        'ù' => Some(55int),
        'ú' => Some(56int),
        'ủ' => Some(57int),
        'ũ' => Some(58int),
        'ụ' => Some(59int),
        'ư' => Some(60int),
        'ừ' => Some(61int),
        'ứ' => Some(62int),
        'ử' => Some(63int),
        'ữ' => Some(64int),
        'ự' => Some(65int),
        'y' => Some(66int),
        'ỳ' => Some(67int),
        'ý' => Some(68int),
        'ỷ' => Some(69int),
        'ỹ' => Some(70int),
        'ỵ' => Some(71int),
        _ => None,
    }
}

/// `vowel_index` finds exactly the entries of the vowel table.
pub proof fn lemma_vowel_index(c: char)
    ensures
        vowel_index(c) matches Some(i) ==> 0 <= i < 72 && vowel_at(i) == c,
        vowel_index(c) is None ==> forall|i: int| 0 <= i < 72 ==> vowel_at(i) != c,
{
}

/// Every entry of the vowel table is found again at its own position: the table holds
/// no letter twice.
pub proof fn lemma_vowel_at(i: int)
    requires
        0 <= i < 72,
    ensures
        vowel_index(vowel_at(i)) == Some(i),
{
}

/// The table entry at a position.
fn vowel_char(i: usize) -> (c: char)
    requires
        i < 72,
    ensures
        c == vowel_at(i as int),
{
    match i {
        0 => 'a',
        1 => 'à',
        2 => 'á',
        3 => 'ả',
        4 => 'ã',
        5 => 'ạ',
        6 => 'ă',
        7 => 'ằ',
        8 => 'ắ',
        9 => 'ẳ',
        10 => 'ẵ',
        11 => 'ặ',
        12 => 'â',
        13 => 'ầ',
        14 => 'ấ',
        15 => 'ẩ',
        16 => 'ẫ',
        17 => 'ậ',
        18 => 'e',
        19 => 'è',
        20 => 'é',
        21 => 'ẻ',
        22 => 'ẽ',
        23 => 'ẹ',
        24 => 'ê',
        25 => 'ề',
        26 => 'ế',
        27 => 'ể',
        28 => 'ễ',
        29 => 'ệ',
        30 => 'i',
        31 => 'ì',
        32 => 'í',
        33 => 'ỉ',
        34 => 'ĩ',
        35 => 'ị',
        36 => 'o',
        37 => 'ò',
        38 => 'ó',
        39 => 'ỏ',
        40 => 'õ',
        41 => 'ọ',
        42 => 'ô',
        43 => 'ồ',
        44 => 'ố',
        45 => 'ổ',
        46 => 'ỗ',
        47 => 'ộ',
        48 => 'ơ',
        49 => 'ờ',
        50 => 'ớ',
        51 => 'ở',
        52 => 'ỡ',
        53 => 'ợ',
        54 => 'u',
        55 => 'ù',
        56 => 'ú',
        57 => 'ủ',
        58 => 'ũ',
        59 => 'ụ',
        60 => 'ư',
        61 => 'ừ',
        62 => 'ứ',
        63 => 'ử',
        64 => 'ữ',
        65 => 'ự',
        66 => 'y',
        67 => 'ỳ',
        68 => 'ý',
        69 => 'ỷ',
        70 => 'ỹ',
        71 => 'ỵ',
        _ => '\0',
    }
}

/// The upper-case table entry at a position.
fn upper_vowel_char(i: usize) -> (c: char)
    requires
        i < 72,
    ensures
        c == upper_vowel_at(i as int),
{
    match i {
        0 => 'A',
        1 => 'À',
        2 => 'Á',
        3 => 'Ả',
        4 => 'Ã',
        5 => 'Ạ',
        6 => 'Ă',
        7 => 'Ằ',
        8 => 'Ắ',
        9 => 'Ẳ',
        10 => 'Ẵ',
        11 => 'Ặ',
        12 => 'Â',
        13 => 'Ầ',
        14 => 'Ấ',
        15 => 'Ẩ',
        16 => 'Ẫ',
        17 => 'Ậ',
        18 => 'E',
        19 => 'È',
        20 => 'É',
        21 => 'Ẻ',
        22 => 'Ẽ',
        23 => 'Ẹ',
        24 => 'Ê',
        25 => 'Ề',
        26 => 'Ế',
        27 => 'Ể',
        28 => 'Ễ',
        29 => 'Ệ',
        30 => 'I',
        31 => 'Ì',
        32 => 'Í',
        33 => 'Ỉ',
        34 => 'Ĩ',
        35 => 'Ị',
        36 => 'O',
        37 => 'Ò',
        38 => 'Ó',
        39 => 'Ỏ',
        40 => 'Õ',
        41 => 'Ọ',
        42 => 'Ô',
        43 => 'Ồ',
        44 => 'Ố',
        45 => 'Ổ',
        46 => 'Ỗ',
        47 => 'Ộ',
        48 => 'Ơ',
        49 => 'Ờ',
        50 => 'Ớ',
        51 => 'Ở',
        52 => 'Ỡ',
        53 => 'Ợ',
        54 => 'U',
        55 => 'Ù',
        56 => 'Ú',
        57 => 'Ủ',
        58 => 'Ũ',
        59 => 'Ụ',
        60 => 'Ư',
        61 => 'Ừ',
        62 => 'Ứ',
        63 => 'Ử',
        64 => 'Ữ',
        65 => 'Ự',
        66 => 'Y',
        67 => 'Ỳ',
        68 => 'Ý',
        69 => 'Ỷ',
        70 => 'Ỹ',
        71 => 'Ỵ',
        _ => '\0',
    }
}

/// Finds the position of a vowel in the vowel table.
///
/// Returns `Some(index)` if found, or `None` otherwise.
pub fn find_vowel_position(chr: char) -> (r: Option<usize>)
    ensures
        r matches Some(p) ==> vowel_index(chr) == Some(p as int),
        r is None ==> vowel_index(chr) is None,
        r matches Some(p) ==> p < vowels().len() && vowels()[p as int] == chr,
        r is None ==> !vowels().contains(chr),
{
    proof {
        lemma_vowel_index(chr);
    }
    let r = match chr {
        'a' => Some(0usize),
        'à' => Some(1usize),
        'á' => Some(2usize),
        'ả' => Some(3usize),
        'ã' => Some(4usize),
        'ạ' => Some(5usize),
        'ă' => Some(6usize),
        'ằ' => Some(7usize),
        'ắ' => Some(8usize),
        'ẳ' => Some(9usize),
        'ẵ' => Some(10usize),
        'ặ' => Some(11usize),
        'â' => Some(12usize),
        'ầ' => Some(13usize),
        'ấ' => Some(14usize),
        'ẩ' => Some(15usize),
        'ẫ' => Some(16usize),
        'ậ' => Some(17usize),
        'e' => Some(18usize),
        'è' => Some(19usize),
        'é' => Some(20usize),
        'ẻ' => Some(21usize),
        'ẽ' => Some(22usize),
        'ẹ' => Some(23usize),
        'ê' => Some(24usize),
        'ề' => Some(25usize),
        'ế' => Some(26usize),
        'ể' => Some(27usize),
        'ễ' => Some(28usize),
        'ệ' => Some(29usize),
        'i' => Some(30usize),
        'ì' => Some(31usize),
        'í' => Some(32usize),
        'ỉ' => Some(33usize),
        'ĩ' => Some(34usize),
        'ị' => Some(35usize),
        'o' => Some(36usize),
        'ò' => Some(37usize),
        'ó' => Some(38usize),
        'ỏ' => Some(39usize),
        'õ' => Some(40usize),
        'ọ' => Some(41usize),
        'ô' => Some(42usize),
        'ồ' => Some(43usize),
        'ố' => Some(44usize),
        'ổ' => Some(45usize),
        'ỗ' => Some(46usize),
        'ộ' => Some(47usize),
        'ơ' => Some(48usize),
        'ờ' => Some(49usize),
        'ớ' => Some(50usize),
        'ở' => Some(51usize),
        'ỡ' => Some(52usize),
        'ợ' => Some(53usize),
        'u' => Some(54usize),
        'ù' => Some(55usize),
        'ú' => Some(56usize),
        'ủ' => Some(57usize),
        'ũ' => Some(58usize),
        'ụ' => Some(59usize),
        'ư' => Some(60usize),
        'ừ' => Some(61usize),
        'ứ' => Some(62usize),
        'ử' => Some(63usize),
        'ữ' => Some(64usize),
        'ự' => Some(65usize),
        'y' => Some(66usize),
        'ỳ' => Some(67usize),
        'ý' => Some(68usize),
        'ỷ' => Some(69usize),
        'ỹ' => Some(70usize),
        'ỵ' => Some(71usize),
        _ => None,
    };
    proof {
        if r is None {
            assert forall|i: int| 0 <= i < vowels().len() implies vowels()[i] != chr by {}
        }
    }
    r
}

/// Checks if a character is a Vietnamese vowel (regardless of tone or diacritic).
pub fn is_vowel(chr: char) -> (r: bool)
    ensures
        r == (vowel_index(chr) is Some),
        r == vowels().contains(chr),
{
    find_vowel_position(chr).is_some()
}

/// The tone (0 to 5) that a letter carries: its position inside its group of the vowel
/// table, 0 for a letter that is no vowel.
pub open spec fn tone_of(c: char) -> u8 {
    match vowel_index(c) {
        Some(p) => (p % 6) as u8,
        None => 0,
    }
}

/// The letter with the same base as `c` in tone `tone`, counted from the start of the
/// group of `c` in the vowel table; `c` itself when that position lies past the table or
/// when `c` is no vowel.
pub open spec fn with_tone(c: char, tone: u8) -> char {
    match vowel_index(c) {
        Some(p) => {
            let np = p - p % 6 + tone;
            if np < 72 {
                vowel_at(np)
            } else {
                c
            }
        },
        None => c,
    }
}

/// Finds the tone index (0 to 5) from a Vietnamese vowel.
///
/// Returns 0 for non-vowels or vowels with no tone (ToneNone).
pub fn find_tone_from_char(chr: char) -> (r: u8)
    ensures
        r == tone_of(chr),
        r < 6,
{
    match find_vowel_position(chr) {
        Some(pos) => (pos % 6) as u8,
        None => 0,
    }
}

/// Applies a tone index (0 to 5) to a Vietnamese vowel while keeping its base mark.
///
/// * `chr` - The vowel to modify.
/// * `tone` - The tone index (0 for normal/none, 1 for grave, 2 for acute, 3 for hook, 4 for tilde, 5 for dot).
pub fn add_tone_to_char(chr: char, tone: u8) -> (r: char)
    ensures
        r == with_tone(chr, tone),
{
    match find_vowel_position(chr) {
        Some(pos) => {
            let new_pos = pos - pos % 6 + tone as usize;
            if new_pos < VOWEL_COUNT {
                vowel_char(new_pos)
            } else {
                chr
            }
        },
        None => chr,
    }
}

/// The row of the diacritic table for a letter: the letter without mark, then its forms
/// with a circumflex, a breve, a horn and a stroke, `_` where the form does not exist.
pub open spec fn mark_row(c: char) -> Option<Seq<char>> {
    match c {
        'a' | 'â' | 'ă' => Some(seq!['a', 'â', 'ă', '_', '_']),
        'e' | 'ê' => Some(seq!['e', 'ê', '_', '_', '_']),
        'o' | 'ô' | 'ơ' => Some(seq!['o', 'ô', '_', 'ơ', '_']),
        'u' | 'ư' => Some(seq!['u', '_', '_', 'ư', '_']),
        'd' | 'đ' => Some(seq!['d', '_', '_', '_', 'đ']),
        _ => None,
    }
}

/// A sequence with the blanks `_` left out.
pub open spec fn without_blanks(s: Seq<char>) -> Seq<char>
    decreases s.len(),
{
    if s.len() == 0 {
        s
    } else {
        let rest = without_blanks(s.drop_last());
        if s.last() == '_' {
            rest
        } else {
            rest.push(s.last())
        }
    }
}

/// The letters of the row of `c`, or none.
pub open spec fn mark_family(c: char) -> Seq<char> {
    match mark_row(c) {
        Some(row) => without_blanks(row),
        None => Seq::empty(),
    }
}

/// The form of a toneless letter with diacritic number `mark`, or the letter itself when
/// its row has no such form.
pub open spec fn with_mark_toneless(c: char, mark: u8) -> char {
    match mark_row(c) {
        Some(row) => if (mark as int) < row.len() && row[mark as int] != '_' {
            row[mark as int]
        } else {
            c
        },
        None => c,
    }
}

/// The letter with diacritic number `mark`, keeping its tone.
pub open spec fn with_mark(c: char, mark: u8) -> char {
    with_tone(with_mark_toneless(with_tone(c, 0), mark), tone_of(c))
}

/// Returns a list of characters belonging to the mark family of the given character.
///
/// Useful for identifying variations of a character with different diacritics (e.g. `a` -> `['a', 'â', 'ă']`).
pub fn get_mark_family(chr: char) -> (r: Vec<char>)
    ensures
        r@ == mark_family(chr),
{
    proof {
        reveal_with_fuel(without_blanks, 6);
    }
    match chr {
        'a' | 'â' | 'ă' => vec!['a', 'â', 'ă'],
        'e' | 'ê' => vec!['e', 'ê'],
        'o' | 'ô' | 'ơ' => vec!['o', 'ô', 'ơ'],
        'u' | 'ư' => vec!['u', 'ư'],
        'd' | 'đ' => vec!['d', 'đ'],
        _ => Vec::new(),
    }
}

/// Finds the position/index of a character within its mark family mapping.
pub fn find_mark_position(chr: char) -> (r: Option<usize>)
    ensures
        r is None <==> mark_row(chr) is None,
        r matches Some(p) ==> ({
            let row = mark_row(chr)->0;
            &&& p < row.len()
            &&& row[p as int] == chr
            &&& forall|q: int| 0 <= q < p ==> row[q] != chr
        }),
{
    match chr {
        'a' | 'e' | 'o' | 'u' | 'd' => Some(0),
        'â' | 'ê' | 'ô' => Some(1),
        'ă' => Some(2),
        'ơ' | 'ư' => Some(3),
        'đ' => Some(4),
        _ => None,
    }
}

/// Adds a diacritic mark to a toneless character based on index position.
///
/// * `chr` - The base character.
/// * `mark` - The index of the mark in the character's mapping sequence.
pub fn add_mark_to_toneless_char(chr: char, mark: u8) -> (r: char)
    ensures
        r == with_mark_toneless(chr, mark),
{
    match chr {
        'a' | 'â' | 'ă' => match mark {
            0 => 'a',
            1 => 'â',
            2 => 'ă',
            _ => chr,
        },
        'e' | 'ê' => match mark {
            0 => 'e',
            1 => 'ê',
            _ => chr,
        },
        'o' | 'ô' | 'ơ' => match mark {
            0 => 'o',
            1 => 'ô',
            3 => 'ơ',
            _ => chr,
        },
        'u' | 'ư' => match mark {
            0 => 'u',
            3 => 'ư',
            _ => chr,
        },
        'd' | 'đ' => match mark {
            0 => 'd',
            4 => 'đ',
            _ => chr,
        },
        _ => chr,
    }
}

/// Adds a diacritic mark to a character while preserving its current tone.
///
/// * `chr` - The character to modify.
/// * `mark` - The index of the mark to apply.
pub fn add_mark_to_char(chr: char, mark: u8) -> (r: char)
    ensures
        r == with_mark(chr, mark),
{
    let tone = find_tone_from_char(chr);
    let toneless_chr = add_tone_to_char(chr, 0);
    let marked_toneless = add_mark_to_toneless_char(toneless_chr, mark);
    add_tone_to_char(marked_toneless, tone)
}

/// The punctuation marks and symbols that do not form part of words.
pub open spec fn spec_is_punctuation_mark(c: char) -> bool {
    match c {
        ',' | ';' | ':' | '.' | '"' | '\'' | '!' | '?' | ' ' | '<' | '>' | '=' | '+' | '-' | '*'
        | '/' | '\\' | '_' | '~' | '`' | '@' | '#' | '$' | '%' | '^' | '&' | '(' | ')' | '{'
        | '}' | '[' | ']' | '|' => true,
        _ => false,
    }
}

/// An ASCII decimal digit.
pub open spec fn spec_is_digit(c: char) -> bool {
    '0' <= c && c <= '9'
}

/// An ASCII letter, `a` to `z` or `A` to `Z`.
pub open spec fn spec_is_alpha(c: char) -> bool {
    ('a' <= c && c <= 'z') || ('A' <= c && c <= 'Z')
}

/// An ASCII upper-case letter.
pub open spec fn spec_is_ascii_upper(c: char) -> bool {
    'A' <= c && c <= 'Z'
}

/// The ASCII lower-case form of a letter; any other character stays.
pub open spec fn ascii_lower(c: char) -> char {
    if spec_is_ascii_upper(c) {
        ((c as u32) + 32) as char
    } else {
        c
    }
}

/// The upper-case form of a letter that the typing engine writes: ASCII letters, the
/// vowels of the vowel table and `đ`; any other character stays.
pub open spec fn upper_letter(c: char) -> char {
    if 'a' <= c && c <= 'z' {
        ((c as u32) - 32) as char
    } else if vowel_index(c) is Some {
        upper_vowel_at(vowel_index(c)->0)
    } else if c == 'đ' {
        'Đ'
    } else {
        c
    }
}

/// The position in the vowel table of the lower-case form of an upper-case vowel.
pub open spec fn upper_vowel_index(c: char) -> Option<int> {
    match c {
        'A' => Some(0int),
        'À' => Some(1int),
        'Á' => Some(2int),
        'Ả' => Some(3int),
        'Ã' => Some(4int),
        'Ạ' => Some(5int),
        'Ă' => Some(6int),
        'Ằ' => Some(7int),
        'Ắ' => Some(8int),
        'Ẳ' => Some(9int),
        'Ẵ' => Some(10int),
        'Ặ' => Some(11int),
        'Â' => Some(12int),
        'Ầ' => Some(13int),
        'Ấ' => Some(14int),
        'Ẩ' => Some(15int),
        'Ẫ' => Some(16int),
        'Ậ' => Some(17int),
        'E' => Some(18int),
        'È' => Some(19int),
        'É' => Some(20int),
        'Ẻ' => Some(21int),
        'Ẽ' => Some(22int),
        'Ẹ' => Some(23int),
        'Ê' => Some(24int),
        'Ề' => Some(25int),
        'Ế' => Some(26int),
        'Ể' => Some(27int),
        'Ễ' => Some(28int),
        'Ệ' => Some(29int),
        'I' => Some(30int),
        'Ì' => Some(31int),
        'Í' => Some(32int),
        'Ỉ' => Some(33int),
        'Ĩ' => Some(34int),
        'Ị' => Some(35int),
        'O' => Some(36int),
        'Ò' => Some(37int),
        'Ó' => Some(38int),
        'Ỏ' => Some(39int),
        'Õ' => Some(40int),
        'Ọ' => Some(41int),
        'Ô' => Some(42int),
        'Ồ' => Some(43int),
        'Ố' => Some(44int),
        'Ổ' => Some(45int),
        'Ỗ' => Some(46int),
        'Ộ' => Some(47int),
        'Ơ' => Some(48int),
        'Ờ' => Some(49int),
        'Ớ' => Some(50int),
        'Ở' => Some(51int),
        'Ỡ' => Some(52int),
        'Ợ' => Some(53int),
        'U' => Some(54int),
        'Ù' => Some(55int),
        'Ú' => Some(56int),
        'Ủ' => Some(57int),
        'Ũ' => Some(58int),
        'Ụ' => Some(59int),
        'Ư' => Some(60int),
        'Ừ' => Some(61int),
        'Ứ' => Some(62int),
        'Ử' => Some(63int),
        'Ữ' => Some(64int),
        'Ự' => Some(65int),
        'Y' => Some(66int),
        'Ỳ' => Some(67int),
        'Ý' => Some(68int),
        'Ỷ' => Some(69int),
        'Ỹ' => Some(70int),
        'Ỵ' => Some(71int),
        _ => None,
    }
}

/// `upper_vowel_index` finds exactly the upper-case entries.
pub proof fn lemma_upper_vowel_index(c: char)
    ensures
        upper_vowel_index(c) matches Some(i) ==> 0 <= i < 72 && upper_vowel_at(i) == c,
{
}

/// An upper-case letter that the typing engine knows: an ASCII one, an upper-case vowel
/// or `Đ`.
pub open spec fn spec_is_upper_letter(c: char) -> bool {
    spec_is_ascii_upper(c) || upper_vowel_index(c) is Some || c == 'Đ'
}

/// The lower-case form of a letter that the typing engine knows; any other character stays.
pub open spec fn lower_letter(c: char) -> char {
    if spec_is_ascii_upper(c) {
        ((c as u32) + 32) as char
    } else if upper_vowel_index(c) is Some {
        vowel_at(upper_vowel_index(c)->0)
    } else if c == 'Đ' {
        'đ'
    } else {
        c
    }
}

/// Whether a letter is upper case (see `spec_is_upper_letter`).
pub fn is_upper_letter(c: char) -> (r: bool)
    ensures
        r == spec_is_upper_letter(c),
{
    (c >= 'A' && c <= 'Z') || find_upper_vowel_position(c).is_some() || c == 'Đ'
}

/// The position of an upper-case vowel in the vowel table.
fn find_upper_vowel_position(c: char) -> (r: Option<usize>)
    ensures
        r matches Some(p) ==> upper_vowel_index(c) == Some(p as int) && p < 72,
        r is None ==> upper_vowel_index(c) is None,
{
    match c {
        'A' => Some(0usize),
        'À' => Some(1usize),
        'Á' => Some(2usize),
        'Ả' => Some(3usize),
        'Ã' => Some(4usize),
        'Ạ' => Some(5usize),
        'Ă' => Some(6usize),
        'Ằ' => Some(7usize),
        'Ắ' => Some(8usize),
        'Ẳ' => Some(9usize),
        'Ẵ' => Some(10usize),
        'Ặ' => Some(11usize),
        'Â' => Some(12usize),
        'Ầ' => Some(13usize),
        'Ấ' => Some(14usize),
        'Ẩ' => Some(15usize),
        'Ẫ' => Some(16usize),
        'Ậ' => Some(17usize),
        'E' => Some(18usize),
        'È' => Some(19usize),
        'É' => Some(20usize),
        'Ẻ' => Some(21usize),
        'Ẽ' => Some(22usize),
        'Ẹ' => Some(23usize),
        'Ê' => Some(24usize),
        'Ề' => Some(25usize),
        'Ế' => Some(26usize),
        'Ể' => Some(27usize),
        'Ễ' => Some(28usize),
        'Ệ' => Some(29usize),
        'I' => Some(30usize),
        'Ì' => Some(31usize),
        'Í' => Some(32usize),
        'Ỉ' => Some(33usize),
        'Ĩ' => Some(34usize),
        'Ị' => Some(35usize),
        'O' => Some(36usize),
        'Ò' => Some(37usize),
        'Ó' => Some(38usize),
        'Ỏ' => Some(39usize),
        'Õ' => Some(40usize),
        'Ọ' => Some(41usize),
        'Ô' => Some(42usize),
        'Ồ' => Some(43usize),
        'Ố' => Some(44usize),
        'Ổ' => Some(45usize),
        'Ỗ' => Some(46usize),
        'Ộ' => Some(47usize),
        'Ơ' => Some(48usize),
        'Ờ' => Some(49usize),
        'Ớ' => Some(50usize),
        'Ở' => Some(51usize),
        'Ỡ' => Some(52usize),
        'Ợ' => Some(53usize),
        'U' => Some(54usize),
        'Ù' => Some(55usize),
        'Ú' => Some(56usize),
        'Ủ' => Some(57usize),
        'Ũ' => Some(58usize),
        'Ụ' => Some(59usize),
        'Ư' => Some(60usize),
        'Ừ' => Some(61usize),
        'Ứ' => Some(62usize),
        'Ử' => Some(63usize),
        'Ữ' => Some(64usize),
        'Ự' => Some(65usize),
        'Y' => Some(66usize),
        'Ỳ' => Some(67usize),
        'Ý' => Some(68usize),
        'Ỷ' => Some(69usize),
        'Ỹ' => Some(70usize),
        'Ỵ' => Some(71usize),
        _ => None,
    }
}

/// The lower-case form of a letter (see `lower_letter`).
pub fn to_lower_letter(c: char) -> (r: char)
    ensures
        r == lower_letter(c),
{
    if c >= 'A' && c <= 'Z' {
        ((c as u8) + 32) as char
    } else {
        match find_upper_vowel_position(c) {
            Some(p) => vowel_char(p),
            None => if c == 'Đ' {
                'đ'
            } else {
                c
            },
        }
    }
}

/// A word break: a punctuation mark, a space or a digit.
pub open spec fn spec_is_word_break_symbol(c: char) -> bool {
    spec_is_punctuation_mark(c) || spec_is_digit(c)
}

/// A letter that only Vietnamese has: one with a tone, or one with a diacritic mark.
pub open spec fn spec_is_vietnamese_rune(c: char) -> bool {
    tone_of(c) != 0 || c != with_mark_toneless(c, 0)
}

/// Checks if a key represents a space character.
pub fn is_space(key: char) -> (r: bool)
    ensures
        r == (key == ' '),
{
    key == ' '
}

/// Checks if a character is a punctuation mark or standard symbol.
pub fn is_punctuation_mark(key: char) -> (r: bool)
    ensures
        r == spec_is_punctuation_mark(key),
{
    match key {
        ',' | ';' | ':' | '.' | '"' | '\'' | '!' | '?' | ' ' | '<' | '>' | '=' | '+' | '-' | '*'
        | '/' | '\\' | '_' | '~' | '`' | '@' | '#' | '$' | '%' | '^' | '&' | '(' | ')' | '{'
        | '}' | '[' | ']' | '|' => true,
        _ => false,
    }
}

/// Checks if a character should act as a word break symbol.
///
/// Returns `true` if the character is a punctuation mark, a space, or a number.
pub fn is_word_break_symbol(key: char) -> (r: bool)
    ensures
        r == spec_is_word_break_symbol(key),
{
    is_punctuation_mark(key) || (key >= '0' && key <= '9')
}

/// Checks if a character is an ASCII alphabetic letter (a-z, A-Z).
pub fn is_alpha(c: char) -> (r: bool)
    ensures
        r == spec_is_alpha(c),
{
    (c >= 'a' && c <= 'z') || (c >= 'A' && c <= 'Z')
}

/// Checks if a character is an ASCII upper-case letter.
pub fn is_ascii_upper(c: char) -> (r: bool)
    ensures
        r == spec_is_ascii_upper(c),
{
    c >= 'A' && c <= 'Z'
}

/// The ASCII lower-case form of a character.
pub fn to_ascii_lower(c: char) -> (r: char)
    ensures
        r == ascii_lower(c),
{
    if c >= 'A' && c <= 'Z' {
        ((c as u8) + 32) as char
    } else {
        c
    }
}

/// The upper-case form of a letter that the typing engine writes (see `upper_letter`).
pub fn to_upper_letter(c: char) -> (r: char)
    ensures
        r == upper_letter(c),
{
    if c >= 'a' && c <= 'z' {
        ((c as u8) - 32) as char
    } else {
        match find_vowel_position(c) {
            Some(p) => upper_vowel_char(p),
            None => if c == 'đ' {
                'Đ'
            } else {
                c
            },
        }
    }
}

/// Whether a slice of keys holds a key.
pub fn contains_char(keys: &[char], c: char) -> (r: bool)
    ensures
        r == keys@.contains(c),
{
    let mut i: usize = 0;
    while i < keys.len()
        invariant
            i <= keys@.len(),
            forall|j: int| 0 <= j < i ==> keys@[j] != c,
        decreases keys@.len() - i,
    {
        if keys[i] == c {
            return true;
        }
        i = i + 1;
    }
    false
}

/// Whether a vector of keys holds a key.
pub fn vec_contains_char(keys: &Vec<char>, c: char) -> (r: bool)
    ensures
        r == keys@.contains(c),
{
    let mut i: usize = 0;
    while i < keys.len()
        invariant
            i <= keys@.len(),
            forall|j: int| 0 <= j < i ==> keys@[j] != c,
        decreases keys@.len() - i,
    {
        if keys[i] == c {
            return true;
        }
        i = i + 1;
    }
    false
}

/// Whether the typing engine takes a key: a letter, a key of the input method, or, short of
/// a word break, a Vietnamese letter.
pub open spec fn spec_can_process_key(lower_key: char, effect_keys: Seq<char>) -> bool {
    if spec_is_alpha(lower_key) || effect_keys.contains(lower_key) {
        true
    } else if spec_is_word_break_symbol(lower_key) {
        false
    } else {
        spec_is_vietnamese_rune(lower_key)
    }
}

/// Determines whether a key/character can be processed by the typing engine.
///
/// Returns `true` if the key is alphabetic, is an active modification key, or is a Vietnamese rune.
pub fn can_process_key(lower_key: char, effect_keys: &[char]) -> (r: bool)
    ensures
        r == spec_can_process_key(lower_key, effect_keys@),
{
    if is_alpha(lower_key) || contains_char(effect_keys, lower_key) {
        return true;
    }
    if is_word_break_symbol(lower_key) {
        return false;
    }
    is_vietnamese_rune(lower_key)
}

/// The same decision as `can_process_key`, over the keys of an input method.
pub fn can_process_key_in(lower_key: char, effect_keys: &Vec<char>) -> (r: bool)
    ensures
        r == spec_can_process_key(lower_key, effect_keys@),
{
    if is_alpha(lower_key) || vec_contains_char(effect_keys, lower_key) {
        return true;
    }
    if is_word_break_symbol(lower_key) {
        return false;
    }
    is_vietnamese_rune(lower_key)
}

/// Checks if a character is a Vietnamese rune (meaning it has a tone or a base Vietnamese mark).
pub fn is_vietnamese_rune(lower_key: char) -> (r: bool)
    ensures
        r == spec_is_vietnamese_rune(lower_key),
{
    if find_tone_from_char(lower_key) != 0 {
        return true;
    }
    lower_key != add_mark_to_toneless_char(lower_key, 0)
}

/// Checks if a string contains any Vietnamese runes.
pub fn has_any_vietnamese_rune(word: &str) -> (r: bool)
    ensures
        r == exists|i: int|
            0 <= i < word@.len() && #[trigger] spec_is_vietnamese_rune(first_lowercase(word@[i])),
{
    broadcast use vstd::string::group_string_axioms;

    for c in it: word.chars()
        invariant
            it.seq() == word@,
            forall|j: int| 0 <= j < it.index() ==> !spec_is_vietnamese_rune(first_lowercase(word@[j])),
    {
        if is_vietnamese_rune(char_first_lowercase(c)) {
            return true;
        }
    }
    false
}

/// Checks if a string contains any Vietnamese vowels.
pub fn has_any_vietnamese_vowel(word: &str) -> (r: bool)
    ensures
        r == exists|i: int| 0 <= i < word@.len() && #[trigger] vowel_index(first_lowercase(word@[i])) is Some,
{
    broadcast use vstd::string::group_string_axioms;

    for c in it: word.chars()
        invariant
            it.seq() == word@,
            forall|j: int| 0 <= j < it.index() ==> vowel_index(first_lowercase(word@[j])) is None,
    {
        if is_vowel(char_first_lowercase(c)) {
            return true;
        }
    }
    false
}

} // verus!

verus! {

/// Setting a tone keeps a vowel a vowel and gives it that tone; setting its old tone again
/// brings the vowel back.
pub proof fn law_tone_round_trip(c: char, tone: u8)
    requires
        vowel_index(c) is Some,
        tone < 6,
    ensures
        vowel_index(with_tone(c, tone)) is Some,
        tone_of(with_tone(c, tone)) == tone,
        with_tone(with_tone(c, tone), tone_of(c)) == c,
{
    let p = vowel_index(c)->0;
    lemma_vowel_index(c);
    let np = p - p % 6 + tone;
    assert(0 <= np < 72);
    lemma_vowel_at(np);
    lemma_vowel_at(p);
    assert(np % 6 == tone as int);
    assert(np - np % 6 + tone_of(c) == p);
}

/// Setting the tone a character already has changes nothing.
pub proof fn law_tone_idempotent(c: char)
    ensures
        with_tone(c, tone_of(c)) == c,
{
    lemma_vowel_index(c);
    if let Some(p) = vowel_index(c) {
        lemma_vowel_at(p);
    }
}

/// Changing the diacritic mark of a vowel keeps its tone.
pub proof fn law_mark_keeps_tone(c: char, mark: u8)
    requires
        vowel_index(c) is Some,
    ensures
        vowel_index(with_mark(c, mark)) is Some,
        tone_of(with_mark(c, mark)) == tone_of(c),
{
    let t = tone_of(c);
    assert(t < 6);
    law_tone_round_trip(c, 0);
    let base = with_tone(c, 0);
    let marked = with_mark_toneless(base, mark);
    lemma_vowel_index(base);
    assert(vowel_index(marked) is Some);
    law_tone_round_trip(marked, t);
}

/// An ASCII letter is no Vietnamese letter.
pub proof fn law_ascii_letters_are_not_vietnamese(c: char)
    requires
        spec_is_alpha(c),
    ensures
        !spec_is_vietnamese_rune(c),
{
    lemma_vowel_index(c);
}

/// The upper-case form of a lower-case letter of the engine turns back into the letter.
pub proof fn law_case_round_trip(c: char)
    requires
        ('a' <= c && c <= 'z') || vowel_index(c) is Some || c == 'đ',
    ensures
        spec_is_upper_letter(upper_letter(c)),
        lower_letter(upper_letter(c)) == c,
{
    lemma_vowel_index(c);
    if !('a' <= c && c <= 'z') {
        if let Some(p) = vowel_index(c) {
            lemma_upper_vowel_at(p);
        }
    }
}

/// Every upper-case entry is found again at its own position.
pub proof fn lemma_upper_vowel_at(i: int)
    requires
        0 <= i < 72,
    ensures
        upper_vowel_index(upper_vowel_at(i)) == Some(i),
{
}

} // verus!
