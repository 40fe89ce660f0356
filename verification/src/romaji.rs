use vstd::prelude::*;
use crate::text::{to_chars, chars_eq, push_char};

verus! {

/// The romaji spellings and the kana each stands for.
pub open spec fn romaji_pairs() -> Seq<(Seq<char>, Seq<char>)> {
    seq![
        ("a"@, "あ"@),
        ("i"@, "い"@),
        ("u"@, "う"@),
        ("e"@, "え"@),
        ("o"@, "お"@),
        ("ka"@, "か"@),
        ("ki"@, "き"@),
        ("ku"@, "く"@),
        ("ke"@, "け"@),
        ("ko"@, "こ"@),
        ("sa"@, "さ"@),
        ("shi"@, "し"@),
        ("si"@, "し"@),
        ("su"@, "す"@),
        ("se"@, "せ"@),
        ("so"@, "そ"@),
        ("ta"@, "た"@),
        ("chi"@, "ち"@),
        ("ti"@, "ち"@),
        ("tsu"@, "つ"@),
        ("tu"@, "つ"@),
        ("te"@, "て"@),
        ("to"@, "と"@),
        ("na"@, "な"@),
        ("ni"@, "に"@),
        ("nu"@, "ぬ"@),
        ("ne"@, "ね"@),
        ("no"@, "の"@),
        ("ha"@, "は"@),
        ("hi"@, "ひ"@),
        ("fu"@, "ふ"@),
        ("hu"@, "ふ"@),
        ("he"@, "へ"@),
        ("ho"@, "ほ"@),
        ("ma"@, "ま"@),
        ("mi"@, "み"@),
        ("mu"@, "む"@),
        ("me"@, "め"@),
        ("mo"@, "も"@),
        ("ya"@, "や"@),
        ("yu"@, "ゆ"@),
        ("yo"@, "よ"@),
        ("ra"@, "ら"@),
        ("ri"@, "り"@),
        ("ru"@, "る"@),
        ("re"@, "れ"@),
        ("ro"@, "ろ"@),
        ("wa"@, "わ"@),
        ("wo"@, "を"@),
        ("nn"@, "ん"@),
        ("ga"@, "が"@),
        ("gi"@, "ぎ"@),
        ("gu"@, "ぐ"@),
        ("ge"@, "げ"@),
        ("go"@, "ご"@),
        ("za"@, "ざ"@),
        ("ji"@, "じ"@),
        ("zi"@, "じ"@),
        ("zu"@, "ず"@),
        ("ze"@, "ぜ"@),
        ("zo"@, "ぞ"@),
        ("da"@, "だ"@),
        ("di"@, "ぢ"@),
        ("du"@, "づ"@),
        ("de"@, "で"@),
        ("do"@, "ど"@),
        ("ba"@, "ば"@),
        ("bi"@, "び"@),
        ("bu"@, "ぶ"@),
        ("be"@, "べ"@),
        ("bo"@, "ぼ"@),
        ("pa"@, "ぱ"@),
        ("pi"@, "ぴ"@),
        ("pu"@, "ぷ"@),
        ("pe"@, "ぺ"@),
        ("po"@, "ぽ"@),
        ("kya"@, "きゃ"@),
        ("kyu"@, "きゅ"@),
        ("kyo"@, "きょ"@),
        ("sha"@, "しゃ"@),
        ("shu"@, "しゅ"@),
        ("sho"@, "しょ"@),
        ("sya"@, "しゃ"@),
        ("syu"@, "しゅ"@),
        ("syo"@, "しょ"@),
        ("cha"@, "ちゃ"@),
        ("chu"@, "ちゅ"@),
        ("cho"@, "ちょ"@),
        ("cya"@, "ちゃ"@),
        ("cyu"@, "ちゅ"@),
        ("cyo"@, "ちょ"@),
        ("nya"@, "にゃ"@),
        ("nyu"@, "にゅ"@),
        ("nyo"@, "にょ"@),
        ("hya"@, "ひゃ"@),
        ("hyu"@, "ひゅ"@),
        ("hyo"@, "ひょ"@),
        ("mya"@, "みゃ"@),
        ("myu"@, "みゅ"@),
        ("myo"@, "みょ"@),
        ("rya"@, "りゃ"@),
        ("ryu"@, "りゅ"@),
        ("ryo"@, "りょ"@),
        ("gya"@, "ぎゃ"@),
        ("gyu"@, "ぎゅ"@),
        ("gyo"@, "ぎょ"@),
        ("ja"@, "じゃ"@),
        ("ju"@, "じゅ"@),
        ("jo"@, "じょ"@),
        ("jya"@, "じゃ"@),
        ("jyu"@, "じゅ"@),
        ("jyo"@, "じょ"@),
        ("bya"@, "びゃ"@),
        ("byu"@, "びゅ"@),
        ("byo"@, "びょ"@),
        ("pya"@, "ぴゃ"@),
        ("pyu"@, "ぴゅ"@),
        ("pyo"@, "ぴょ"@)
    ]
}

/// The kana of the first pair from `i` on whose spelling is `r`.
pub open spec fn romaji_lookup_from(pairs: Seq<(Seq<char>, Seq<char>)>, r: Seq<char>, i: int) -> Option<
    Seq<char>,
>
    decreases pairs.len() - i,
{
    if i < 0 || i >= pairs.len() {
        None
    } else if pairs[i].0 == r {
        Some(pairs[i].1)
    } else {
        romaji_lookup_from(pairs, r, i + 1)
    }
}

/// The kana that the romaji spelling `r` stands for, if any.
pub open spec fn romaji_kana(r: Seq<char>) -> Option<Seq<char>> {
    romaji_lookup_from(romaji_pairs(), r, 0)
}

fn romaji_table() -> (t: [(&'static str, &'static str); 118])
    ensures
        t@.map_values(|p: (&str, &str)| (p.0@, p.1@)) == romaji_pairs(),
{
    let t = [
        ("a", "あ"),
        ("i", "い"),
        ("u", "う"),
        ("e", "え"),
        ("o", "お"),
        ("ka", "か"),
        ("ki", "き"),
        ("ku", "く"),
        ("ke", "け"),
        ("ko", "こ"),
        ("sa", "さ"),
        ("shi", "し"),
        ("si", "し"),
        ("su", "す"),
        ("se", "せ"),
        ("so", "そ"),
        ("ta", "た"),
        ("chi", "ち"),
        ("ti", "ち"),
        ("tsu", "つ"),
        ("tu", "つ"),
        ("te", "て"),
        ("to", "と"),
        ("na", "な"),
        ("ni", "に"),
        ("nu", "ぬ"),
        ("ne", "ね"),
        ("no", "の"),
        ("ha", "は"),
        ("hi", "ひ"),
        ("fu", "ふ"),
        ("hu", "ふ"),
        ("he", "へ"),
        ("ho", "ほ"),
        ("ma", "ま"),
        ("mi", "み"),
        ("mu", "む"),
        ("me", "め"),
        ("mo", "も"),
        ("ya", "や"),
        ("yu", "ゆ"),
        ("yo", "よ"),
        ("ra", "ら"),
        ("ri", "り"),
        ("ru", "る"),
        ("re", "れ"),
        ("ro", "ろ"),
        ("wa", "わ"),
        ("wo", "を"),
        ("nn", "ん"),
        ("ga", "が"),
        ("gi", "ぎ"),
        ("gu", "ぐ"),
        ("ge", "げ"),
        ("go", "ご"),
        ("za", "ざ"),
        ("ji", "じ"),
        ("zi", "じ"),
        ("zu", "ず"),
        ("ze", "ぜ"),
        ("zo", "ぞ"),
        ("da", "だ"),
        ("di", "ぢ"),
        ("du", "づ"),
        ("de", "で"),
        ("do", "ど"),
        ("ba", "ば"),
        ("bi", "び"),
        ("bu", "ぶ"),
        ("be", "べ"),
        ("bo", "ぼ"),
        ("pa", "ぱ"),
        ("pi", "ぴ"),
        ("pu", "ぷ"),
        ("pe", "ぺ"),
        ("po", "ぽ"),
        ("kya", "きゃ"),
        ("kyu", "きゅ"),
        ("kyo", "きょ"),
        ("sha", "しゃ"),
        ("shu", "しゅ"),
        ("sho", "しょ"),
        ("sya", "しゃ"),
        ("syu", "しゅ"),
        ("syo", "しょ"),
        ("cha", "ちゃ"),
        ("chu", "ちゅ"),
        ("cho", "ちょ"),
        ("cya", "ちゃ"),
        ("cyu", "ちゅ"),
        ("cyo", "ちょ"),
        ("nya", "にゃ"),
        ("nyu", "にゅ"),
        ("nyo", "にょ"),
        ("hya", "ひゃ"),
        ("hyu", "ひゅ"),
        ("hyo", "ひょ"),
        ("mya", "みゃ"),
        ("myu", "みゅ"),
        ("myo", "みょ"),
        ("rya", "りゃ"),
        ("ryu", "りゅ"),
        ("ryo", "りょ"),
        ("gya", "ぎゃ"),
        ("gyu", "ぎゅ"),
        ("gyo", "ぎょ"),
        ("ja", "じゃ"),
        ("ju", "じゅ"),
        ("jo", "じょ"),
        ("jya", "じゃ"),
        ("jyu", "じゅ"),
        ("jyo", "じょ"),
        ("bya", "びゃ"),
        ("byu", "びゅ"),
        ("byo", "びょ"),
        ("pya", "ぴゃ"),
        ("pyu", "ぴゅ"),
        ("pyo", "ぴょ")
    ];
    proof {
        assert(t@.map_values(|p: (&str, &str)| (p.0@, p.1@)) =~= romaji_pairs());
    }
    t
}

/// The kana that `romaji` stands for, if it is a known spelling.
pub fn try_convert_romaji(romaji: &str) -> (r: Option<String>)
    ensures
        r is Some <==> romaji_kana(romaji@) is Some,
        r is Some ==> r->0@ == romaji_kana(romaji@)->0,
{
    let table = romaji_table();
    let ghost pairs = romaji_pairs();
    let rc = to_chars(romaji);
    let mut i: usize = 0;
    while i < 118
        invariant
            i <= 118,
            pairs == romaji_pairs(),
            rc@ == romaji@,
            pairs.len() == 118,
            table@.map_values(|p: (&str, &str)| (p.0@, p.1@)) == pairs,
            romaji_kana(romaji@) == romaji_lookup_from(pairs, romaji@, i as int),
        decreases 118 - i,
    {
        let (k, v) = table[i];
        proof {
            assert(pairs[i as int] == (k@, v@));
        }
        let kc = to_chars(k);
        let same = chars_eq(&kc, &rc);
        proof {
            assert(pairs[i as int].0 == k@);
            assert(kc@ == k@);
            assert(rc@ == romaji@);
            assert(same == (k@ == romaji@));
        }
        if same {
            proof {
                assert(pairs[i as int].0 == romaji@);
                assert(romaji_lookup_from(pairs, romaji@, i as int) == Some(v@));
            }
            return Some(String::from_str(v));
        }
        i = i + 1;
    }
    None
}


/// The katakana for a hiragana character (U+3041..U+3096 move up by
/// 0x60); other characters stay as they are.
pub open spec fn hira_to_kata_spec(c: char) -> char {
    if 0x3041 <= (c as u32) <= 0x3096 {
        ((c as u32) + 0x60) as char
    } else {
        c
    }
}

/// Calls std's `char::from_u32`. Claimed, as std documents: the result is
/// the character with code `v` when `v` is a Unicode scalar value (below
/// U+D800, or U+E000..=U+10FFFF), and `None` otherwise.
#[verifier::external_body]
pub(crate) fn char_from_u32(v: u32) -> (r: Option<char>)
    ensures
        r is Some <==> (v < 0xD800 || (0xE000 <= v <= 0x10FFFF)),
        r matches Some(c) ==> c == (v as char) && (c as u32) == v,
{
    char::from_u32(v)
}

pub fn hira_to_kata(ch: char) -> (r: char)
    ensures
        r == hira_to_kata_spec(ch),
{
    let code = ch as u32;
    if 0x3041 <= code && code <= 0x3096 {
        match char_from_u32(code + 0x60) {
            Some(k) => k,
            None => ch,
        }
    } else {
        ch
    }
}

/// The text with every hiragana character turned into katakana.
pub fn to_katakana(s: &str) -> (r: String)
    ensures
        r@ == s@.map_values(|c: char| hira_to_kata_spec(c)),
{
    let cs = to_chars(s);
    let mut out = String::new();
    let mut i: usize = 0;
    while i < cs.len()
        invariant
            i <= cs@.len(),
            cs@ == s@,
            out@ == cs@.subrange(0, i as int).map_values(|c: char| hira_to_kata_spec(c)),
        decreases cs@.len() - i,
    {
        push_char(&mut out, hira_to_kata(cs[i]));
        proof {
            assert(cs@.subrange(0, i + 1).map_values(|c: char| hira_to_kata_spec(c)) =~= cs@.subrange(
                0,
                i as int,
            ).map_values(|c: char| hira_to_kata_spec(c)).push(hira_to_kata_spec(cs@[i as int])));
        }
        i = i + 1;
    }
    proof {
        assert(cs@.subrange(0, i as int) =~= cs@);
    }
    out
}

} // verus!
