use vstd::prelude::*;
use crate::romaji::{romaji_pairs, romaji_lookup_from, romaji_kana};

verus! {

/// The position of a vowel letter in a-i-u-e-o order (-1 for any other
/// letter).
pub open spec fn vowel_index(v: char) -> int {
    if v == 'a' {
        0
    } else if v == 'i' {
        1
    } else if v == 'u' {
        2
    } else if v == 'e' {
        3
    } else if v == 'o' {
        4
    } else {
        -1
    }
}

/// The code of the hiragana for the consonant `c` with the vowel of index
/// `j`, read off the gojūon layout of the Unicode hiragana block: each row
/// runs a-i-u-e-o with the voiced (and, for h, half-voiced) forms between
/// the plain ones, small tsu sits before tsu, and the y and w rows have
/// gaps.
pub open spec fn gojuon_code(c: char, j: int) -> Option<int> {
    if j < 0 || j > 4 {
        None
    } else if c == 'k' {
        Some(0x304B + 2 * j)
    } else if c == 'g' {
        Some(0x304C + 2 * j)
    } else if c == 's' {
        Some(0x3055 + 2 * j)
    } else if c == 'z' {
        Some(0x3056 + 2 * j)
    } else if c == 't' || c == 'd' {
        let base: int = if c == 't' { 0x305F } else { 0x3060 };
        let step: int = if j == 0 { 0 } else if j == 1 { 2 } else if j == 2 { 5 } else if j == 3 { 7 } else { 9 };
        Some(base + step)
    } else if c == 'n' {
        Some(0x306A + j)
    } else if c == 'h' {
        Some(0x306F + 3 * j)
    } else if c == 'b' {
        Some(0x3070 + 3 * j)
    } else if c == 'p' {
        Some(0x3071 + 3 * j)
    } else if c == 'm' {
        Some(0x307E + j)
    } else if c == 'r' {
        Some(0x3089 + j)
    } else if c == 'y' {
        if j == 0 { Some(0x3084) } else if j == 2 { Some(0x3086) } else if j == 4 { Some(0x3088) } else { None }
    } else if c == 'w' {
        if j == 0 { Some(0x308F) } else if j == 4 { Some(0x3092) } else { None }
    } else {
        None
    }
}

/// The one kana of consonant `c` with the vowel of index `j`.
pub open spec fn gojuon_kana(c: char, j: int) -> Option<Seq<char>> {
    match gojuon_code(c, j) {
        Some(x) => Some(seq![x as char]),
        None => None,
    }
}

/// A contracted sound: the i-kana of consonant `c` and a small ya, yu or
/// yo for the vowel `v`.
pub open spec fn yoon_kana(c: char, v: char) -> Option<Seq<char>> {
    let j = vowel_index(v);
    if j == 0 || j == 2 || j == 4 {
        match gojuon_code(c, 1) {
            Some(x) => Some(seq![x as char, (0x3083 + j) as char]),
            None => None,
        }
    } else {
        None
    }
}

/// The kana a romaji spelling stands for in the Hepburn and kunrei
/// romanizations: a vowel, `nn`, a consonant and a vowel, a consonant with
/// `y` and a vowel (a contracted sound), and the Hepburn spellings `shi`,
/// `chi`, `tsu`, `fu`, `ji`, `j`+vowel, `sh`+vowel and `ch`+vowel (with
/// `c` and `j` standing for `t` and `z` before `y`).
pub open spec fn hepburn_kana(r: Seq<char>) -> Option<Seq<char>> {
    if r.len() == 1 {
        let j = vowel_index(r[0]);
        if j >= 0 {
            Some(seq![(0x3042 + 2 * j) as char])
        } else {
            None
        }
    } else if r == seq!['n', 'n'] {
        Some(seq![0x3093int as char])
    } else if r.len() == 2 {
        let c = r[0];
        let j = vowel_index(r[1]);
        if c == 'f' && j == 2 {
            gojuon_kana('h', 2)
        } else if c == 'j' {
            if j == 1 {
                gojuon_kana('z', 1)
            } else {
                yoon_kana('z', r[1])
            }
        } else {
            gojuon_kana(c, j)
        }
    } else if r.len() == 3 {
        if r == seq!['s', 'h', 'i'] {
            gojuon_kana('s', 1)
        } else if r == seq!['c', 'h', 'i'] {
            gojuon_kana('t', 1)
        } else if r == seq!['t', 's', 'u'] {
            gojuon_kana('t', 2)
        } else if r[1] == 'y' {
            let c = if r[0] == 'c' { 't' } else if r[0] == 'j' { 'z' } else { r[0] };
            yoon_kana(c, r[2])
        } else if r[0] == 's' && r[1] == 'h' {
            yoon_kana('s', r[2])
        } else if r[0] == 'c' && r[1] == 'h' {
            yoon_kana('t', r[2])
        } else {
            None
        }
    } else {
        None
    }
}

/// The plain spellings every romanization shares: a vowel, `nn`, or a
/// consonant and a vowel that the gojūon table has.
pub open spec fn basic_spelling(r: Seq<char>) -> bool {
    ||| r.len() == 1 && vowel_index(r[0]) >= 0
    ||| r == seq!['n', 'n']
    ||| r.len() == 2 && gojuon_code(r[0], vowel_index(r[1])) is Some
}

/// A lookup that finds something found it in some pair from `i` on.
proof fn lemma_lookup_found(pairs: Seq<(Seq<char>, Seq<char>)>, r: Seq<char>, i: int)
    ensures
        romaji_lookup_from(pairs, r, i) matches Some(k) ==> exists|j: int|
            i <= j < pairs.len() && #[trigger] pairs[j] == (r, k),
    decreases pairs.len() - i,
{
    if 0 <= i < pairs.len() && pairs[i].0 != r {
        lemma_lookup_found(pairs, r, i + 1);
    }
}

/// A spelling held by some pair at or after `i` is found from `i`.
proof fn lemma_lookup_some(pairs: Seq<(Seq<char>, Seq<char>)>, r: Seq<char>, i: int, j: int)
    requires
        0 <= i <= j < pairs.len(),
        pairs[j].0 == r,
    ensures
        romaji_lookup_from(pairs, r, i) is Some,
    decreases j - i,
{
    if pairs[i].0 != r {
        lemma_lookup_some(pairs, r, i + 1, j);
    }
}


#[verifier::rlimit(60)]
proof fn lemma_pairs_hepburn_0(j: int)
    requires
        0 <= j < 15,
    ensures
        hepburn_kana(romaji_pairs()[j].0) == Some(romaji_pairs()[j].1),
{
    let ps = romaji_pairs();
    if j == 0 {
        reveal_strlit("a");
        reveal_strlit("あ");
        assert(ps[0] == ("a"@, "あ"@));
        assert("a"@ == seq!['a']);
        assert("あ"@ == seq![12354 as char]);
    } else if j == 1 {
        reveal_strlit("i");
        reveal_strlit("い");
        assert(ps[1] == ("i"@, "い"@));
        assert("i"@ == seq!['i']);
        assert("い"@ == seq![12356 as char]);
    } else if j == 2 {
        reveal_strlit("u");
        reveal_strlit("う");
        assert(ps[2] == ("u"@, "う"@));
        assert("u"@ == seq!['u']);
        assert("う"@ == seq![12358 as char]);
    } else if j == 3 {
        reveal_strlit("e");
        reveal_strlit("え");
        assert(ps[3] == ("e"@, "え"@));
        assert("e"@ == seq!['e']);
        assert("え"@ == seq![12360 as char]);
    } else if j == 4 {
        reveal_strlit("o");
        reveal_strlit("お");
        assert(ps[4] == ("o"@, "お"@));
        assert("o"@ == seq!['o']);
        assert("お"@ == seq![12362 as char]);
    } else if j == 5 {
        reveal_strlit("ka");
        reveal_strlit("か");
        assert(ps[5] == ("ka"@, "か"@));
        assert("ka"@ == seq!['k', 'a']);
        assert("か"@ == seq![12363 as char]);
    } else if j == 6 {
        reveal_strlit("ki");
        reveal_strlit("き");
        assert(ps[6] == ("ki"@, "き"@));
        assert("ki"@ == seq!['k', 'i']);
        assert("き"@ == seq![12365 as char]);
    } else if j == 7 {
        reveal_strlit("ku");
        reveal_strlit("く");
        assert(ps[7] == ("ku"@, "く"@));
        assert("ku"@ == seq!['k', 'u']);
        assert("く"@ == seq![12367 as char]);
    } else if j == 8 {
        reveal_strlit("ke");
        reveal_strlit("け");
        assert(ps[8] == ("ke"@, "け"@));
        assert("ke"@ == seq!['k', 'e']);
        assert("け"@ == seq![12369 as char]);
    } else if j == 9 {
        reveal_strlit("ko");
        reveal_strlit("こ");
        assert(ps[9] == ("ko"@, "こ"@));
        assert("ko"@ == seq!['k', 'o']);
        assert("こ"@ == seq![12371 as char]);
    } else if j == 10 {
        reveal_strlit("sa");
        reveal_strlit("さ");
        assert(ps[10] == ("sa"@, "さ"@));
        assert("sa"@ == seq!['s', 'a']);
        assert("さ"@ == seq![12373 as char]);
    } else if j == 11 {
        reveal_strlit("shi");
        reveal_strlit("し");
        assert(ps[11] == ("shi"@, "し"@));
        assert("shi"@ == seq!['s', 'h', 'i']);
        assert("し"@ == seq![12375 as char]);
    } else if j == 12 {
        reveal_strlit("si");
        reveal_strlit("し");
        assert(ps[12] == ("si"@, "し"@));
        assert("si"@ == seq!['s', 'i']);
        assert("し"@ == seq![12375 as char]);
    } else if j == 13 {
        reveal_strlit("su");
        reveal_strlit("す");
        assert(ps[13] == ("su"@, "す"@));
        assert("su"@ == seq!['s', 'u']);
        assert("す"@ == seq![12377 as char]);
    } else if j == 14 {
        reveal_strlit("se");
        reveal_strlit("せ");
        assert(ps[14] == ("se"@, "せ"@));
        assert("se"@ == seq!['s', 'e']);
        assert("せ"@ == seq![12379 as char]);
    }
}

#[verifier::rlimit(60)]
proof fn lemma_pairs_hepburn_1(j: int)
    requires
        15 <= j < 30,
    ensures
        hepburn_kana(romaji_pairs()[j].0) == Some(romaji_pairs()[j].1),
{
    let ps = romaji_pairs();
    if j == 15 {
        reveal_strlit("so");
        reveal_strlit("そ");
        assert(ps[15] == ("so"@, "そ"@));
        assert("so"@ == seq!['s', 'o']);
        assert("そ"@ == seq![12381 as char]);
    } else if j == 16 {
        reveal_strlit("ta");
        reveal_strlit("た");
        assert(ps[16] == ("ta"@, "た"@));
        assert("ta"@ == seq!['t', 'a']);
        assert("た"@ == seq![12383 as char]);
    } else if j == 17 {
        reveal_strlit("chi");
        reveal_strlit("ち");
        assert(ps[17] == ("chi"@, "ち"@));
        assert("chi"@ == seq!['c', 'h', 'i']);
        assert("ち"@ == seq![12385 as char]);
    } else if j == 18 {
        reveal_strlit("ti");
        reveal_strlit("ち");
        assert(ps[18] == ("ti"@, "ち"@));
        assert("ti"@ == seq!['t', 'i']);
        assert("ち"@ == seq![12385 as char]);
    } else if j == 19 {
        reveal_strlit("tsu");
        reveal_strlit("つ");
        assert(ps[19] == ("tsu"@, "つ"@));
        assert("tsu"@ == seq!['t', 's', 'u']);
        assert("つ"@ == seq![12388 as char]);
    } else if j == 20 {
        reveal_strlit("tu");
        reveal_strlit("つ");
        assert(ps[20] == ("tu"@, "つ"@));
        assert("tu"@ == seq!['t', 'u']);
        assert("つ"@ == seq![12388 as char]);
    } else if j == 21 {
        reveal_strlit("te");
        reveal_strlit("て");
        assert(ps[21] == ("te"@, "て"@));
        assert("te"@ == seq!['t', 'e']);
        assert("て"@ == seq![12390 as char]);
    } else if j == 22 {
        reveal_strlit("to");
        reveal_strlit("と");
        assert(ps[22] == ("to"@, "と"@));
        assert("to"@ == seq!['t', 'o']);
        assert("と"@ == seq![12392 as char]);
    } else if j == 23 {
        reveal_strlit("na");
        reveal_strlit("な");
        assert(ps[23] == ("na"@, "な"@));
        assert("na"@ == seq!['n', 'a']);
        assert("な"@ == seq![12394 as char]);
    } else if j == 24 {
        reveal_strlit("ni");
        reveal_strlit("に");
        assert(ps[24] == ("ni"@, "に"@));
        assert("ni"@ == seq!['n', 'i']);
        assert("に"@ == seq![12395 as char]);
    } else if j == 25 {
        reveal_strlit("nu");
        reveal_strlit("ぬ");
        assert(ps[25] == ("nu"@, "ぬ"@));
        assert("nu"@ == seq!['n', 'u']);
        assert("ぬ"@ == seq![12396 as char]);
    } else if j == 26 {
        reveal_strlit("ne");
        reveal_strlit("ね");
        assert(ps[26] == ("ne"@, "ね"@));
        assert("ne"@ == seq!['n', 'e']);
        assert("ね"@ == seq![12397 as char]);
    } else if j == 27 {
        reveal_strlit("no");
        reveal_strlit("の");
        assert(ps[27] == ("no"@, "の"@));
        assert("no"@ == seq!['n', 'o']);
        assert("の"@ == seq![12398 as char]);
    } else if j == 28 {
        reveal_strlit("ha");
        reveal_strlit("は");
        assert(ps[28] == ("ha"@, "は"@));
        assert("ha"@ == seq!['h', 'a']);
        assert("は"@ == seq![12399 as char]);
    } else if j == 29 {
        reveal_strlit("hi");
        reveal_strlit("ひ");
        assert(ps[29] == ("hi"@, "ひ"@));
        assert("hi"@ == seq!['h', 'i']);
        assert("ひ"@ == seq![12402 as char]);
    }
}

#[verifier::rlimit(60)]
proof fn lemma_pairs_hepburn_2(j: int)
    requires
        30 <= j < 45,
    ensures
        hepburn_kana(romaji_pairs()[j].0) == Some(romaji_pairs()[j].1),
{
    let ps = romaji_pairs();
    if j == 30 {
        reveal_strlit("fu");
        reveal_strlit("ふ");
        assert(ps[30] == ("fu"@, "ふ"@));
        assert("fu"@ == seq!['f', 'u']);
        assert("ふ"@ == seq![12405 as char]);
    } else if j == 31 {
        reveal_strlit("hu");
        reveal_strlit("ふ");
        assert(ps[31] == ("hu"@, "ふ"@));
        assert("hu"@ == seq!['h', 'u']);
        assert("ふ"@ == seq![12405 as char]);
    } else if j == 32 {
        reveal_strlit("he");
        reveal_strlit("へ");
        assert(ps[32] == ("he"@, "へ"@));
        assert("he"@ == seq!['h', 'e']);
        assert("へ"@ == seq![12408 as char]);
    } else if j == 33 {
        reveal_strlit("ho");
        reveal_strlit("ほ");
        assert(ps[33] == ("ho"@, "ほ"@));
        assert("ho"@ == seq!['h', 'o']);
        assert("ほ"@ == seq![12411 as char]);
    } else if j == 34 {
        reveal_strlit("ma");
        reveal_strlit("ま");
        assert(ps[34] == ("ma"@, "ま"@));
        assert("ma"@ == seq!['m', 'a']);
        assert("ま"@ == seq![12414 as char]);
    } else if j == 35 {
        reveal_strlit("mi");
        reveal_strlit("み");
        assert(ps[35] == ("mi"@, "み"@));
        assert("mi"@ == seq!['m', 'i']);
        assert("み"@ == seq![12415 as char]);
    } else if j == 36 {
        reveal_strlit("mu");
        reveal_strlit("む");
        assert(ps[36] == ("mu"@, "む"@));
        assert("mu"@ == seq!['m', 'u']);
        assert("む"@ == seq![12416 as char]);
    } else if j == 37 {
        reveal_strlit("me");
        reveal_strlit("め");
        assert(ps[37] == ("me"@, "め"@));
        assert("me"@ == seq!['m', 'e']);
        assert("め"@ == seq![12417 as char]);
    } else if j == 38 {
        reveal_strlit("mo");
        reveal_strlit("も");
        assert(ps[38] == ("mo"@, "も"@));
        assert("mo"@ == seq!['m', 'o']);
        assert("も"@ == seq![12418 as char]);
    } else if j == 39 {
        reveal_strlit("ya");
        reveal_strlit("や");
        assert(ps[39] == ("ya"@, "や"@));
        assert("ya"@ == seq!['y', 'a']);
        assert("や"@ == seq![12420 as char]);
    } else if j == 40 {
        reveal_strlit("yu");
        reveal_strlit("ゆ");
        assert(ps[40] == ("yu"@, "ゆ"@));
        assert("yu"@ == seq!['y', 'u']);
        assert("ゆ"@ == seq![12422 as char]);
    } else if j == 41 {
        reveal_strlit("yo");
        reveal_strlit("よ");
        assert(ps[41] == ("yo"@, "よ"@));
        assert("yo"@ == seq!['y', 'o']);
        assert("よ"@ == seq![12424 as char]);
    } else if j == 42 {
        reveal_strlit("ra");
        reveal_strlit("ら");
        assert(ps[42] == ("ra"@, "ら"@));
        assert("ra"@ == seq!['r', 'a']);
        assert("ら"@ == seq![12425 as char]);
    } else if j == 43 {
        reveal_strlit("ri");
        reveal_strlit("り");
        assert(ps[43] == ("ri"@, "り"@));
        assert("ri"@ == seq!['r', 'i']);
        assert("り"@ == seq![12426 as char]);
    } else if j == 44 {
        reveal_strlit("ru");
        reveal_strlit("る");
        assert(ps[44] == ("ru"@, "る"@));
        assert("ru"@ == seq!['r', 'u']);
        assert("る"@ == seq![12427 as char]);
    }
}

#[verifier::rlimit(60)]
proof fn lemma_pairs_hepburn_3(j: int)
    requires
        45 <= j < 60,
    ensures
        hepburn_kana(romaji_pairs()[j].0) == Some(romaji_pairs()[j].1),
{
    let ps = romaji_pairs();
    if j == 45 {
        reveal_strlit("re");
        reveal_strlit("れ");
        assert(ps[45] == ("re"@, "れ"@));
        assert("re"@ == seq!['r', 'e']);
        assert("れ"@ == seq![12428 as char]);
    } else if j == 46 {
        reveal_strlit("ro");
        reveal_strlit("ろ");
        assert(ps[46] == ("ro"@, "ろ"@));
        assert("ro"@ == seq!['r', 'o']);
        assert("ろ"@ == seq![12429 as char]);
    } else if j == 47 {
        reveal_strlit("wa");
        reveal_strlit("わ");
        assert(ps[47] == ("wa"@, "わ"@));
        assert("wa"@ == seq!['w', 'a']);
        assert("わ"@ == seq![12431 as char]);
    } else if j == 48 {
        reveal_strlit("wo");
        reveal_strlit("を");
        assert(ps[48] == ("wo"@, "を"@));
        assert("wo"@ == seq!['w', 'o']);
        assert("を"@ == seq![12434 as char]);
    } else if j == 49 {
        reveal_strlit("nn");
        reveal_strlit("ん");
        assert(ps[49] == ("nn"@, "ん"@));
        assert("nn"@ == seq!['n', 'n']);
        assert("ん"@ == seq![12435 as char]);
    } else if j == 50 {
        reveal_strlit("ga");
        reveal_strlit("が");
        assert(ps[50] == ("ga"@, "が"@));
        assert("ga"@ == seq!['g', 'a']);
        assert("が"@ == seq![12364 as char]);
    } else if j == 51 {
        reveal_strlit("gi");
        reveal_strlit("ぎ");
        assert(ps[51] == ("gi"@, "ぎ"@));
        assert("gi"@ == seq!['g', 'i']);
        assert("ぎ"@ == seq![12366 as char]);
    } else if j == 52 {
        reveal_strlit("gu");
        reveal_strlit("ぐ");
        assert(ps[52] == ("gu"@, "ぐ"@));
        assert("gu"@ == seq!['g', 'u']);
        assert("ぐ"@ == seq![12368 as char]);
    } else if j == 53 {
        reveal_strlit("ge");
        reveal_strlit("げ");
        assert(ps[53] == ("ge"@, "げ"@));
        assert("ge"@ == seq!['g', 'e']);
        assert("げ"@ == seq![12370 as char]);
    } else if j == 54 {
        reveal_strlit("go");
        reveal_strlit("ご");
        assert(ps[54] == ("go"@, "ご"@));
        assert("go"@ == seq!['g', 'o']);
        assert("ご"@ == seq![12372 as char]);
    } else if j == 55 {
        reveal_strlit("za");
        reveal_strlit("ざ");
        assert(ps[55] == ("za"@, "ざ"@));
        assert("za"@ == seq!['z', 'a']);
        assert("ざ"@ == seq![12374 as char]);
    } else if j == 56 {
        reveal_strlit("ji");
        reveal_strlit("じ");
        assert(ps[56] == ("ji"@, "じ"@));
        assert("ji"@ == seq!['j', 'i']);
        assert("じ"@ == seq![12376 as char]);
    } else if j == 57 {
        reveal_strlit("zi");
        reveal_strlit("じ");
        assert(ps[57] == ("zi"@, "じ"@));
        assert("zi"@ == seq!['z', 'i']);
        assert("じ"@ == seq![12376 as char]);
    } else if j == 58 {
        reveal_strlit("zu");
        reveal_strlit("ず");
        assert(ps[58] == ("zu"@, "ず"@));
        assert("zu"@ == seq!['z', 'u']);
        assert("ず"@ == seq![12378 as char]);
    } else if j == 59 {
        reveal_strlit("ze");
        reveal_strlit("ぜ");
        assert(ps[59] == ("ze"@, "ぜ"@));
        assert("ze"@ == seq!['z', 'e']);
        assert("ぜ"@ == seq![12380 as char]);
    }
}

#[verifier::rlimit(60)]
proof fn lemma_pairs_hepburn_4(j: int)
    requires
        60 <= j < 75,
    ensures
        hepburn_kana(romaji_pairs()[j].0) == Some(romaji_pairs()[j].1),
{
    let ps = romaji_pairs();
    if j == 60 {
        reveal_strlit("zo");
        reveal_strlit("ぞ");
        assert(ps[60] == ("zo"@, "ぞ"@));
        assert("zo"@ == seq!['z', 'o']);
        assert("ぞ"@ == seq![12382 as char]);
    } else if j == 61 {
        reveal_strlit("da");
        reveal_strlit("だ");
        assert(ps[61] == ("da"@, "だ"@));
        assert("da"@ == seq!['d', 'a']);
        assert("だ"@ == seq![12384 as char]);
    } else if j == 62 {
        reveal_strlit("di");
        reveal_strlit("ぢ");
        assert(ps[62] == ("di"@, "ぢ"@));
        assert("di"@ == seq!['d', 'i']);
        assert("ぢ"@ == seq![12386 as char]);
    } else if j == 63 {
        reveal_strlit("du");
        reveal_strlit("づ");
        assert(ps[63] == ("du"@, "づ"@));
        assert("du"@ == seq!['d', 'u']);
        assert("づ"@ == seq![12389 as char]);
    } else if j == 64 {
        reveal_strlit("de");
        reveal_strlit("で");
        assert(ps[64] == ("de"@, "で"@));
        assert("de"@ == seq!['d', 'e']);
        assert("で"@ == seq![12391 as char]);
    } else if j == 65 {
        reveal_strlit("do");
        reveal_strlit("ど");
        assert(ps[65] == ("do"@, "ど"@));
        assert("do"@ == seq!['d', 'o']);
        assert("ど"@ == seq![12393 as char]);
    } else if j == 66 {
        reveal_strlit("ba");
        reveal_strlit("ば");
        assert(ps[66] == ("ba"@, "ば"@));
        assert("ba"@ == seq!['b', 'a']);
        assert("ば"@ == seq![12400 as char]);
    } else if j == 67 {
        reveal_strlit("bi");
        reveal_strlit("び");
        assert(ps[67] == ("bi"@, "び"@));
        assert("bi"@ == seq!['b', 'i']);
        assert("び"@ == seq![12403 as char]);
    } else if j == 68 {
        reveal_strlit("bu");
        reveal_strlit("ぶ");
        assert(ps[68] == ("bu"@, "ぶ"@));
        assert("bu"@ == seq!['b', 'u']);
        assert("ぶ"@ == seq![12406 as char]);
    } else if j == 69 {
        reveal_strlit("be");
        reveal_strlit("べ");
        assert(ps[69] == ("be"@, "べ"@));
        assert("be"@ == seq!['b', 'e']);
        assert("べ"@ == seq![12409 as char]);
    } else if j == 70 {
        reveal_strlit("bo");
        reveal_strlit("ぼ");
        assert(ps[70] == ("bo"@, "ぼ"@));
        assert("bo"@ == seq!['b', 'o']);
        assert("ぼ"@ == seq![12412 as char]);
    } else if j == 71 {
        reveal_strlit("pa");
        reveal_strlit("ぱ");
        assert(ps[71] == ("pa"@, "ぱ"@));
        assert("pa"@ == seq!['p', 'a']);
        assert("ぱ"@ == seq![12401 as char]);
    } else if j == 72 {
        reveal_strlit("pi");
        reveal_strlit("ぴ");
        assert(ps[72] == ("pi"@, "ぴ"@));
        assert("pi"@ == seq!['p', 'i']);
        assert("ぴ"@ == seq![12404 as char]);
    } else if j == 73 {
        reveal_strlit("pu");
        reveal_strlit("ぷ");
        assert(ps[73] == ("pu"@, "ぷ"@));
        assert("pu"@ == seq!['p', 'u']);
        assert("ぷ"@ == seq![12407 as char]);
    } else if j == 74 {
        reveal_strlit("pe");
        reveal_strlit("ぺ");
        assert(ps[74] == ("pe"@, "ぺ"@));
        assert("pe"@ == seq!['p', 'e']);
        assert("ぺ"@ == seq![12410 as char]);
    }
}

#[verifier::rlimit(60)]
proof fn lemma_pairs_hepburn_5(j: int)
    requires
        75 <= j < 90,
    ensures
        hepburn_kana(romaji_pairs()[j].0) == Some(romaji_pairs()[j].1),
{
    let ps = romaji_pairs();
    if j == 75 {
        reveal_strlit("po");
        reveal_strlit("ぽ");
        assert(ps[75] == ("po"@, "ぽ"@));
        assert("po"@ == seq!['p', 'o']);
        assert("ぽ"@ == seq![12413 as char]);
    } else if j == 76 {
        reveal_strlit("kya");
        reveal_strlit("きゃ");
        assert(ps[76] == ("kya"@, "きゃ"@));
        assert("kya"@ == seq!['k', 'y', 'a']);
        assert("きゃ"@ == seq![12365 as char, 12419 as char]);
    } else if j == 77 {
        reveal_strlit("kyu");
        reveal_strlit("きゅ");
        assert(ps[77] == ("kyu"@, "きゅ"@));
        assert("kyu"@ == seq!['k', 'y', 'u']);
        assert("きゅ"@ == seq![12365 as char, 12421 as char]);
    } else if j == 78 {
        reveal_strlit("kyo");
        reveal_strlit("きょ");
        assert(ps[78] == ("kyo"@, "きょ"@));
        assert("kyo"@ == seq!['k', 'y', 'o']);
        assert("きょ"@ == seq![12365 as char, 12423 as char]);
    } else if j == 79 {
        reveal_strlit("sha");
        reveal_strlit("しゃ");
        assert(ps[79] == ("sha"@, "しゃ"@));
        assert("sha"@ == seq!['s', 'h', 'a']);
        assert("しゃ"@ == seq![12375 as char, 12419 as char]);
    } else if j == 80 {
        reveal_strlit("shu");
        reveal_strlit("しゅ");
        assert(ps[80] == ("shu"@, "しゅ"@));
        assert("shu"@ == seq!['s', 'h', 'u']);
        assert("しゅ"@ == seq![12375 as char, 12421 as char]);
    } else if j == 81 {
        reveal_strlit("sho");
        reveal_strlit("しょ");
        assert(ps[81] == ("sho"@, "しょ"@));
        assert("sho"@ == seq!['s', 'h', 'o']);
        assert("しょ"@ == seq![12375 as char, 12423 as char]);
    } else if j == 82 {
        reveal_strlit("sya");
        reveal_strlit("しゃ");
        assert(ps[82] == ("sya"@, "しゃ"@));
        assert("sya"@ == seq!['s', 'y', 'a']);
        assert("しゃ"@ == seq![12375 as char, 12419 as char]);
    } else if j == 83 {
        reveal_strlit("syu");
        reveal_strlit("しゅ");
        assert(ps[83] == ("syu"@, "しゅ"@));
        assert("syu"@ == seq!['s', 'y', 'u']);
        assert("しゅ"@ == seq![12375 as char, 12421 as char]);
    } else if j == 84 {
        reveal_strlit("syo");
        reveal_strlit("しょ");
        assert(ps[84] == ("syo"@, "しょ"@));
        assert("syo"@ == seq!['s', 'y', 'o']);
        assert("しょ"@ == seq![12375 as char, 12423 as char]);
    } else if j == 85 {
        reveal_strlit("cha");
        reveal_strlit("ちゃ");
        assert(ps[85] == ("cha"@, "ちゃ"@));
        assert("cha"@ == seq!['c', 'h', 'a']);
        assert("ちゃ"@ == seq![12385 as char, 12419 as char]);
    } else if j == 86 {
        reveal_strlit("chu");
        reveal_strlit("ちゅ");
        assert(ps[86] == ("chu"@, "ちゅ"@));
        assert("chu"@ == seq!['c', 'h', 'u']);
        assert("ちゅ"@ == seq![12385 as char, 12421 as char]);
    } else if j == 87 {
        reveal_strlit("cho");
        reveal_strlit("ちょ");
        assert(ps[87] == ("cho"@, "ちょ"@));
        assert("cho"@ == seq!['c', 'h', 'o']);
        assert("ちょ"@ == seq![12385 as char, 12423 as char]);
    } else if j == 88 {
        reveal_strlit("cya");
        reveal_strlit("ちゃ");
        assert(ps[88] == ("cya"@, "ちゃ"@));
        assert("cya"@ == seq!['c', 'y', 'a']);
        assert("ちゃ"@ == seq![12385 as char, 12419 as char]);
    } else if j == 89 {
        reveal_strlit("cyu");
        reveal_strlit("ちゅ");
        assert(ps[89] == ("cyu"@, "ちゅ"@));
        assert("cyu"@ == seq!['c', 'y', 'u']);
        assert("ちゅ"@ == seq![12385 as char, 12421 as char]);
    }
}

#[verifier::rlimit(60)]
proof fn lemma_pairs_hepburn_6(j: int)
    requires
        90 <= j < 105,
    ensures
        hepburn_kana(romaji_pairs()[j].0) == Some(romaji_pairs()[j].1),
{
    let ps = romaji_pairs();
    if j == 90 {
        reveal_strlit("cyo");
        reveal_strlit("ちょ");
        assert(ps[90] == ("cyo"@, "ちょ"@));
        assert("cyo"@ == seq!['c', 'y', 'o']);
        assert("ちょ"@ == seq![12385 as char, 12423 as char]);
    } else if j == 91 {
        reveal_strlit("nya");
        reveal_strlit("にゃ");
        assert(ps[91] == ("nya"@, "にゃ"@));
        assert("nya"@ == seq!['n', 'y', 'a']);
        assert("にゃ"@ == seq![12395 as char, 12419 as char]);
    } else if j == 92 {
        reveal_strlit("nyu");
        reveal_strlit("にゅ");
        assert(ps[92] == ("nyu"@, "にゅ"@));
        assert("nyu"@ == seq!['n', 'y', 'u']);
        assert("にゅ"@ == seq![12395 as char, 12421 as char]);
    } else if j == 93 {
        reveal_strlit("nyo");
        reveal_strlit("にょ");
        assert(ps[93] == ("nyo"@, "にょ"@));
        assert("nyo"@ == seq!['n', 'y', 'o']);
        assert("にょ"@ == seq![12395 as char, 12423 as char]);
    } else if j == 94 {
        reveal_strlit("hya");
        reveal_strlit("ひゃ");
        assert(ps[94] == ("hya"@, "ひゃ"@));
        assert("hya"@ == seq!['h', 'y', 'a']);
        assert("ひゃ"@ == seq![12402 as char, 12419 as char]);
    } else if j == 95 {
        reveal_strlit("hyu");
        reveal_strlit("ひゅ");
        assert(ps[95] == ("hyu"@, "ひゅ"@));
        assert("hyu"@ == seq!['h', 'y', 'u']);
        assert("ひゅ"@ == seq![12402 as char, 12421 as char]);
    } else if j == 96 {
        reveal_strlit("hyo");
        reveal_strlit("ひょ");
        assert(ps[96] == ("hyo"@, "ひょ"@));
        assert("hyo"@ == seq!['h', 'y', 'o']);
        assert("ひょ"@ == seq![12402 as char, 12423 as char]);
    } else if j == 97 {
        reveal_strlit("mya");
        reveal_strlit("みゃ");
        assert(ps[97] == ("mya"@, "みゃ"@));
        assert("mya"@ == seq!['m', 'y', 'a']);
        assert("みゃ"@ == seq![12415 as char, 12419 as char]);
    } else if j == 98 {
        reveal_strlit("myu");
        reveal_strlit("みゅ");
        assert(ps[98] == ("myu"@, "みゅ"@));
        assert("myu"@ == seq!['m', 'y', 'u']);
        assert("みゅ"@ == seq![12415 as char, 12421 as char]);
    } else if j == 99 {
        reveal_strlit("myo");
        reveal_strlit("みょ");
        assert(ps[99] == ("myo"@, "みょ"@));
        assert("myo"@ == seq!['m', 'y', 'o']);
        assert("みょ"@ == seq![12415 as char, 12423 as char]);
    } else if j == 100 {
        reveal_strlit("rya");
        reveal_strlit("りゃ");
        assert(ps[100] == ("rya"@, "りゃ"@));
        assert("rya"@ == seq!['r', 'y', 'a']);
        assert("りゃ"@ == seq![12426 as char, 12419 as char]);
    } else if j == 101 {
        reveal_strlit("ryu");
        reveal_strlit("りゅ");
        assert(ps[101] == ("ryu"@, "りゅ"@));
        assert("ryu"@ == seq!['r', 'y', 'u']);
        assert("りゅ"@ == seq![12426 as char, 12421 as char]);
    } else if j == 102 {
        reveal_strlit("ryo");
        reveal_strlit("りょ");
        assert(ps[102] == ("ryo"@, "りょ"@));
        assert("ryo"@ == seq!['r', 'y', 'o']);
        assert("りょ"@ == seq![12426 as char, 12423 as char]);
    } else if j == 103 {
        reveal_strlit("gya");
        reveal_strlit("ぎゃ");
        assert(ps[103] == ("gya"@, "ぎゃ"@));
        assert("gya"@ == seq!['g', 'y', 'a']);
        assert("ぎゃ"@ == seq![12366 as char, 12419 as char]);
    } else if j == 104 {
        reveal_strlit("gyu");
        reveal_strlit("ぎゅ");
        assert(ps[104] == ("gyu"@, "ぎゅ"@));
        assert("gyu"@ == seq!['g', 'y', 'u']);
        assert("ぎゅ"@ == seq![12366 as char, 12421 as char]);
    }
}

#[verifier::rlimit(60)]
proof fn lemma_pairs_hepburn_7(j: int)
    requires
        105 <= j < 118,
    ensures
        hepburn_kana(romaji_pairs()[j].0) == Some(romaji_pairs()[j].1),
{
    let ps = romaji_pairs();
    if j == 105 {
        reveal_strlit("gyo");
        reveal_strlit("ぎょ");
        assert(ps[105] == ("gyo"@, "ぎょ"@));
        assert("gyo"@ == seq!['g', 'y', 'o']);
        assert("ぎょ"@ == seq![12366 as char, 12423 as char]);
    } else if j == 106 {
        reveal_strlit("ja");
        reveal_strlit("じゃ");
        assert(ps[106] == ("ja"@, "じゃ"@));
        assert("ja"@ == seq!['j', 'a']);
        assert("じゃ"@ == seq![12376 as char, 12419 as char]);
    } else if j == 107 {
        reveal_strlit("ju");
        reveal_strlit("じゅ");
        assert(ps[107] == ("ju"@, "じゅ"@));
        assert("ju"@ == seq!['j', 'u']);
        assert("じゅ"@ == seq![12376 as char, 12421 as char]);
    } else if j == 108 {
        reveal_strlit("jo");
        reveal_strlit("じょ");
        assert(ps[108] == ("jo"@, "じょ"@));
        assert("jo"@ == seq!['j', 'o']);
        assert("じょ"@ == seq![12376 as char, 12423 as char]);
    } else if j == 109 {
        reveal_strlit("jya");
        reveal_strlit("じゃ");
        assert(ps[109] == ("jya"@, "じゃ"@));
        assert("jya"@ == seq!['j', 'y', 'a']);
        assert("じゃ"@ == seq![12376 as char, 12419 as char]);
    } else if j == 110 {
        reveal_strlit("jyu");
        reveal_strlit("じゅ");
        assert(ps[110] == ("jyu"@, "じゅ"@));
        assert("jyu"@ == seq!['j', 'y', 'u']);
        assert("じゅ"@ == seq![12376 as char, 12421 as char]);
    } else if j == 111 {
        reveal_strlit("jyo");
        reveal_strlit("じょ");
        assert(ps[111] == ("jyo"@, "じょ"@));
        assert("jyo"@ == seq!['j', 'y', 'o']);
        assert("じょ"@ == seq![12376 as char, 12423 as char]);
    } else if j == 112 {
        reveal_strlit("bya");
        reveal_strlit("びゃ");
        assert(ps[112] == ("bya"@, "びゃ"@));
        assert("bya"@ == seq!['b', 'y', 'a']);
        assert("びゃ"@ == seq![12403 as char, 12419 as char]);
    } else if j == 113 {
        reveal_strlit("byu");
        reveal_strlit("びゅ");
        assert(ps[113] == ("byu"@, "びゅ"@));
        assert("byu"@ == seq!['b', 'y', 'u']);
        assert("びゅ"@ == seq![12403 as char, 12421 as char]);
    } else if j == 114 {
        reveal_strlit("byo");
        reveal_strlit("びょ");
        assert(ps[114] == ("byo"@, "びょ"@));
        assert("byo"@ == seq!['b', 'y', 'o']);
        assert("びょ"@ == seq![12403 as char, 12423 as char]);
    } else if j == 115 {
        reveal_strlit("pya");
        reveal_strlit("ぴゃ");
        assert(ps[115] == ("pya"@, "ぴゃ"@));
        assert("pya"@ == seq!['p', 'y', 'a']);
        assert("ぴゃ"@ == seq![12404 as char, 12419 as char]);
    } else if j == 116 {
        reveal_strlit("pyu");
        reveal_strlit("ぴゅ");
        assert(ps[116] == ("pyu"@, "ぴゅ"@));
        assert("pyu"@ == seq!['p', 'y', 'u']);
        assert("ぴゅ"@ == seq![12404 as char, 12421 as char]);
    } else if j == 117 {
        reveal_strlit("pyo");
        reveal_strlit("ぴょ");
        assert(ps[117] == ("pyo"@, "ぴょ"@));
        assert("pyo"@ == seq!['p', 'y', 'o']);
        assert("ぴょ"@ == seq![12404 as char, 12423 as char]);
    }
}

/// Every romaji spelling the kana input knows turns into the kana the
/// romanization gives for it (`hepburn_kana`, read off the layout of the
/// hiragana block), and every plain spelling (a vowel, `nn`, or a
/// consonant and a vowel of the gojūon table) is known: so typing `ko`
/// gives こ, `ga` gives が, `shi` and `si` give し.
pub proof fn law_romaji_spellings(r: Seq<char>)
    ensures
        romaji_kana(r) matches Some(k) ==> hepburn_kana(r) == Some(k),
        basic_spelling(r) ==> romaji_kana(r) is Some,
{
    let ps = romaji_pairs();
    assert(ps.len() == 118);
    lemma_lookup_found(ps, r, 0);
    if romaji_kana(r) is Some {
        let k = romaji_kana(r)->0;
        let j = choose|j: int| 0 <= j < ps.len() && #[trigger] ps[j] == (r, k);
        if j < 15 {
            lemma_pairs_hepburn_0(j);
        } else if j < 30 {
            lemma_pairs_hepburn_1(j);
        } else if j < 45 {
            lemma_pairs_hepburn_2(j);
        } else if j < 60 {
            lemma_pairs_hepburn_3(j);
        } else if j < 75 {
            lemma_pairs_hepburn_4(j);
        } else if j < 90 {
            lemma_pairs_hepburn_5(j);
        } else if j < 105 {
            lemma_pairs_hepburn_6(j);
        } else if j < 118 {
            lemma_pairs_hepburn_7(j);
        }
    }
    if basic_spelling(r) {
        if r.len() == 1 {
            assert(r =~= seq![r[0]]);
            if r[0] == 'a' {
                reveal_strlit("a");
                assert(ps[0].0 == "a"@);
                assert(r =~= "a"@);
                lemma_lookup_some(ps, r, 0, 0);
            } else if r[0] == 'i' {
                reveal_strlit("i");
                assert(ps[1].0 == "i"@);
                assert(r =~= "i"@);
                lemma_lookup_some(ps, r, 0, 1);
            } else if r[0] == 'u' {
                reveal_strlit("u");
                assert(ps[2].0 == "u"@);
                assert(r =~= "u"@);
                lemma_lookup_some(ps, r, 0, 2);
            } else if r[0] == 'e' {
                reveal_strlit("e");
                assert(ps[3].0 == "e"@);
                assert(r =~= "e"@);
                lemma_lookup_some(ps, r, 0, 3);
            } else if r[0] == 'o' {
                reveal_strlit("o");
                assert(ps[4].0 == "o"@);
                assert(r =~= "o"@);
                lemma_lookup_some(ps, r, 0, 4);
            }
        } else {
            assert(r =~= seq![r[0], r[1]]);
            if r[0] == 'k' && r[1] == 'a' {
                reveal_strlit("ka");
                assert(ps[5].0 == "ka"@);
                assert(r =~= "ka"@);
                lemma_lookup_some(ps, r, 0, 5);
            } else if r[0] == 'k' && r[1] == 'i' {
                reveal_strlit("ki");
                assert(ps[6].0 == "ki"@);
                assert(r =~= "ki"@);
                lemma_lookup_some(ps, r, 0, 6);
            } else if r[0] == 'k' && r[1] == 'u' {
                reveal_strlit("ku");
                assert(ps[7].0 == "ku"@);
                assert(r =~= "ku"@);
                lemma_lookup_some(ps, r, 0, 7);
            } else if r[0] == 'k' && r[1] == 'e' {
                reveal_strlit("ke");
                assert(ps[8].0 == "ke"@);
                assert(r =~= "ke"@);
                lemma_lookup_some(ps, r, 0, 8);
            } else if r[0] == 'k' && r[1] == 'o' {
                reveal_strlit("ko");
                assert(ps[9].0 == "ko"@);
                assert(r =~= "ko"@);
                lemma_lookup_some(ps, r, 0, 9);
            } else if r[0] == 'g' && r[1] == 'a' {
                reveal_strlit("ga");
                assert(ps[50].0 == "ga"@);
                assert(r =~= "ga"@);
                lemma_lookup_some(ps, r, 0, 50);
            } else if r[0] == 'g' && r[1] == 'i' {
                reveal_strlit("gi");
                assert(ps[51].0 == "gi"@);
                assert(r =~= "gi"@);
                lemma_lookup_some(ps, r, 0, 51);
            } else if r[0] == 'g' && r[1] == 'u' {
                reveal_strlit("gu");
                assert(ps[52].0 == "gu"@);
                assert(r =~= "gu"@);
                lemma_lookup_some(ps, r, 0, 52);
            } else if r[0] == 'g' && r[1] == 'e' {
                reveal_strlit("ge");
                assert(ps[53].0 == "ge"@);
                assert(r =~= "ge"@);
                lemma_lookup_some(ps, r, 0, 53);
            } else if r[0] == 'g' && r[1] == 'o' {
                reveal_strlit("go");
                assert(ps[54].0 == "go"@);
                assert(r =~= "go"@);
                lemma_lookup_some(ps, r, 0, 54);
            } else if r[0] == 's' && r[1] == 'a' {
                reveal_strlit("sa");
                assert(ps[10].0 == "sa"@);
                assert(r =~= "sa"@);
                lemma_lookup_some(ps, r, 0, 10);
            } else if r[0] == 's' && r[1] == 'i' {
                reveal_strlit("si");
                assert(ps[12].0 == "si"@);
                assert(r =~= "si"@);
                lemma_lookup_some(ps, r, 0, 12);
            } else if r[0] == 's' && r[1] == 'u' {
                reveal_strlit("su");
                assert(ps[13].0 == "su"@);
                assert(r =~= "su"@);
                lemma_lookup_some(ps, r, 0, 13);
            } else if r[0] == 's' && r[1] == 'e' {
                reveal_strlit("se");
                assert(ps[14].0 == "se"@);
                assert(r =~= "se"@);
                lemma_lookup_some(ps, r, 0, 14);
            } else if r[0] == 's' && r[1] == 'o' {
                reveal_strlit("so");
                assert(ps[15].0 == "so"@);
                assert(r =~= "so"@);
                lemma_lookup_some(ps, r, 0, 15);
            } else if r[0] == 'z' && r[1] == 'a' {
                reveal_strlit("za");
                assert(ps[55].0 == "za"@);
                assert(r =~= "za"@);
                lemma_lookup_some(ps, r, 0, 55);
            } else if r[0] == 'z' && r[1] == 'i' {
                reveal_strlit("zi");
                assert(ps[57].0 == "zi"@);
                assert(r =~= "zi"@);
                lemma_lookup_some(ps, r, 0, 57);
            } else if r[0] == 'z' && r[1] == 'u' {
                reveal_strlit("zu");
                assert(ps[58].0 == "zu"@);
                assert(r =~= "zu"@);
                lemma_lookup_some(ps, r, 0, 58);
            } else if r[0] == 'z' && r[1] == 'e' {
                reveal_strlit("ze");
                assert(ps[59].0 == "ze"@);
                assert(r =~= "ze"@);
                lemma_lookup_some(ps, r, 0, 59);
            } else if r[0] == 'z' && r[1] == 'o' {
                reveal_strlit("zo");
                assert(ps[60].0 == "zo"@);
                assert(r =~= "zo"@);
                lemma_lookup_some(ps, r, 0, 60);
            } else if r[0] == 't' && r[1] == 'a' {
                reveal_strlit("ta");
                assert(ps[16].0 == "ta"@);
                assert(r =~= "ta"@);
                lemma_lookup_some(ps, r, 0, 16);
            } else if r[0] == 't' && r[1] == 'i' {
                reveal_strlit("ti");
                assert(ps[18].0 == "ti"@);
                assert(r =~= "ti"@);
                lemma_lookup_some(ps, r, 0, 18);
            } else if r[0] == 't' && r[1] == 'u' {
                reveal_strlit("tu");
                assert(ps[20].0 == "tu"@);
                assert(r =~= "tu"@);
                lemma_lookup_some(ps, r, 0, 20);
            } else if r[0] == 't' && r[1] == 'e' {
                reveal_strlit("te");
                assert(ps[21].0 == "te"@);
                assert(r =~= "te"@);
                lemma_lookup_some(ps, r, 0, 21);
            } else if r[0] == 't' && r[1] == 'o' {
                reveal_strlit("to");
                assert(ps[22].0 == "to"@);
                assert(r =~= "to"@);
                lemma_lookup_some(ps, r, 0, 22);
            } else if r[0] == 'd' && r[1] == 'a' {
                reveal_strlit("da");
                assert(ps[61].0 == "da"@);
                assert(r =~= "da"@);
                lemma_lookup_some(ps, r, 0, 61);
            } else if r[0] == 'd' && r[1] == 'i' {
                reveal_strlit("di");
                assert(ps[62].0 == "di"@);
                assert(r =~= "di"@);
                lemma_lookup_some(ps, r, 0, 62);
            } else if r[0] == 'd' && r[1] == 'u' {
                reveal_strlit("du");
                assert(ps[63].0 == "du"@);
                assert(r =~= "du"@);
                lemma_lookup_some(ps, r, 0, 63);
            } else if r[0] == 'd' && r[1] == 'e' {
                reveal_strlit("de");
                assert(ps[64].0 == "de"@);
                assert(r =~= "de"@);
                lemma_lookup_some(ps, r, 0, 64);
            } else if r[0] == 'd' && r[1] == 'o' {
                reveal_strlit("do");
                assert(ps[65].0 == "do"@);
                assert(r =~= "do"@);
                lemma_lookup_some(ps, r, 0, 65);
            } else if r[0] == 'n' && r[1] == 'a' {
                reveal_strlit("na");
                assert(ps[23].0 == "na"@);
                assert(r =~= "na"@);
                lemma_lookup_some(ps, r, 0, 23);
            } else if r[0] == 'n' && r[1] == 'i' {
                reveal_strlit("ni");
                assert(ps[24].0 == "ni"@);
                assert(r =~= "ni"@);
                lemma_lookup_some(ps, r, 0, 24);
            } else if r[0] == 'n' && r[1] == 'u' {
                reveal_strlit("nu");
                assert(ps[25].0 == "nu"@);
                assert(r =~= "nu"@);
                lemma_lookup_some(ps, r, 0, 25);
            } else if r[0] == 'n' && r[1] == 'e' {
                reveal_strlit("ne");
                assert(ps[26].0 == "ne"@);
                assert(r =~= "ne"@);
                lemma_lookup_some(ps, r, 0, 26);
            } else if r[0] == 'n' && r[1] == 'o' {
                reveal_strlit("no");
                assert(ps[27].0 == "no"@);
                assert(r =~= "no"@);
                lemma_lookup_some(ps, r, 0, 27);
            } else if r[0] == 'h' && r[1] == 'a' {
                reveal_strlit("ha");
                assert(ps[28].0 == "ha"@);
                assert(r =~= "ha"@);
                lemma_lookup_some(ps, r, 0, 28);
            } else if r[0] == 'h' && r[1] == 'i' {
                reveal_strlit("hi");
                assert(ps[29].0 == "hi"@);
                assert(r =~= "hi"@);
                lemma_lookup_some(ps, r, 0, 29);
            } else if r[0] == 'h' && r[1] == 'u' {
                reveal_strlit("hu");
                assert(ps[31].0 == "hu"@);
                assert(r =~= "hu"@);
                lemma_lookup_some(ps, r, 0, 31);
            } else if r[0] == 'h' && r[1] == 'e' {
                reveal_strlit("he");
                assert(ps[32].0 == "he"@);
                assert(r =~= "he"@);
                lemma_lookup_some(ps, r, 0, 32);
            } else if r[0] == 'h' && r[1] == 'o' {
                reveal_strlit("ho");
                assert(ps[33].0 == "ho"@);
                assert(r =~= "ho"@);
                lemma_lookup_some(ps, r, 0, 33);
            } else if r[0] == 'b' && r[1] == 'a' {
                reveal_strlit("ba");
                assert(ps[66].0 == "ba"@);
                assert(r =~= "ba"@);
                lemma_lookup_some(ps, r, 0, 66);
            } else if r[0] == 'b' && r[1] == 'i' {
                reveal_strlit("bi");
                assert(ps[67].0 == "bi"@);
                assert(r =~= "bi"@);
                lemma_lookup_some(ps, r, 0, 67);
            } else if r[0] == 'b' && r[1] == 'u' {
                reveal_strlit("bu");
                assert(ps[68].0 == "bu"@);
                assert(r =~= "bu"@);
                lemma_lookup_some(ps, r, 0, 68);
            } else if r[0] == 'b' && r[1] == 'e' {
                reveal_strlit("be");
                assert(ps[69].0 == "be"@);
                assert(r =~= "be"@);
                lemma_lookup_some(ps, r, 0, 69);
            } else if r[0] == 'b' && r[1] == 'o' {
                reveal_strlit("bo");
                assert(ps[70].0 == "bo"@);
                assert(r =~= "bo"@);
                lemma_lookup_some(ps, r, 0, 70);
            } else if r[0] == 'p' && r[1] == 'a' {
                reveal_strlit("pa");
                assert(ps[71].0 == "pa"@);
                assert(r =~= "pa"@);
                lemma_lookup_some(ps, r, 0, 71);
            } else if r[0] == 'p' && r[1] == 'i' {
                reveal_strlit("pi");
                assert(ps[72].0 == "pi"@);
                assert(r =~= "pi"@);
                lemma_lookup_some(ps, r, 0, 72);
            } else if r[0] == 'p' && r[1] == 'u' {
                reveal_strlit("pu");
                assert(ps[73].0 == "pu"@);
                assert(r =~= "pu"@);
                lemma_lookup_some(ps, r, 0, 73);
            } else if r[0] == 'p' && r[1] == 'e' {
                reveal_strlit("pe");
                assert(ps[74].0 == "pe"@);
                assert(r =~= "pe"@);
                lemma_lookup_some(ps, r, 0, 74);
            } else if r[0] == 'p' && r[1] == 'o' {
                reveal_strlit("po");
                assert(ps[75].0 == "po"@);
                assert(r =~= "po"@);
                lemma_lookup_some(ps, r, 0, 75);
            } else if r[0] == 'm' && r[1] == 'a' {
                reveal_strlit("ma");
                assert(ps[34].0 == "ma"@);
                assert(r =~= "ma"@);
                lemma_lookup_some(ps, r, 0, 34);
            } else if r[0] == 'm' && r[1] == 'i' {
                reveal_strlit("mi");
                assert(ps[35].0 == "mi"@);
                assert(r =~= "mi"@);
                lemma_lookup_some(ps, r, 0, 35);
            } else if r[0] == 'm' && r[1] == 'u' {
                reveal_strlit("mu");
                assert(ps[36].0 == "mu"@);
                assert(r =~= "mu"@);
                lemma_lookup_some(ps, r, 0, 36);
            } else if r[0] == 'm' && r[1] == 'e' {
                reveal_strlit("me");
                assert(ps[37].0 == "me"@);
                assert(r =~= "me"@);
                lemma_lookup_some(ps, r, 0, 37);
            } else if r[0] == 'm' && r[1] == 'o' {
                reveal_strlit("mo");
                assert(ps[38].0 == "mo"@);
                assert(r =~= "mo"@);
                lemma_lookup_some(ps, r, 0, 38);
            } else if r[0] == 'r' && r[1] == 'a' {
                reveal_strlit("ra");
                assert(ps[42].0 == "ra"@);
                assert(r =~= "ra"@);
                lemma_lookup_some(ps, r, 0, 42);
            } else if r[0] == 'r' && r[1] == 'i' {
                reveal_strlit("ri");
                assert(ps[43].0 == "ri"@);
                assert(r =~= "ri"@);
                lemma_lookup_some(ps, r, 0, 43);
            } else if r[0] == 'r' && r[1] == 'u' {
                reveal_strlit("ru");
                assert(ps[44].0 == "ru"@);
                assert(r =~= "ru"@);
                lemma_lookup_some(ps, r, 0, 44);
            } else if r[0] == 'r' && r[1] == 'e' {
                reveal_strlit("re");
                assert(ps[45].0 == "re"@);
                assert(r =~= "re"@);
                lemma_lookup_some(ps, r, 0, 45);
            } else if r[0] == 'r' && r[1] == 'o' {
                reveal_strlit("ro");
                assert(ps[46].0 == "ro"@);
                assert(r =~= "ro"@);
                lemma_lookup_some(ps, r, 0, 46);
            } else if r[0] == 'y' && r[1] == 'a' {
                reveal_strlit("ya");
                assert(ps[39].0 == "ya"@);
                assert(r =~= "ya"@);
                lemma_lookup_some(ps, r, 0, 39);
            } else if r[0] == 'y' && r[1] == 'u' {
                reveal_strlit("yu");
                assert(ps[40].0 == "yu"@);
                assert(r =~= "yu"@);
                lemma_lookup_some(ps, r, 0, 40);
            } else if r[0] == 'y' && r[1] == 'o' {
                reveal_strlit("yo");
                assert(ps[41].0 == "yo"@);
                assert(r =~= "yo"@);
                lemma_lookup_some(ps, r, 0, 41);
            } else if r[0] == 'w' && r[1] == 'a' {
                reveal_strlit("wa");
                assert(ps[47].0 == "wa"@);
                assert(r =~= "wa"@);
                lemma_lookup_some(ps, r, 0, 47);
            } else if r[0] == 'w' && r[1] == 'o' {
                reveal_strlit("wo");
                assert(ps[48].0 == "wo"@);
                assert(r =~= "wo"@);
                lemma_lookup_some(ps, r, 0, 48);
            } else if r[0] == 'n' && r[1] == 'n' {
                reveal_strlit("nn");
                assert(ps[49].0 == "nn"@);
                assert(r =~= "nn"@);
                lemma_lookup_some(ps, r, 0, 49);
            }
        }
    }
}

} // verus!
