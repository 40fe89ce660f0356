use vstd::prelude::*;
use vstd::hash_map::StringHashMap;
use crate::jisyo::{sort_texts, sorted_texts, join_strings, join_with};
use crate::renderer::push_all;
use crate::romaji::{romaji_kana, try_convert_romaji, to_katakana, hira_to_kata_spec};
use crate::text::{
    lines_view, to_chars, string_of, clone_strings, split_lines, split_chars, split_by,
    split_chars_by, lemma_split_len, lemma_split_by_len, char_string, push_char,
};

verus! {

/// A reading-to-candidates dictionary for kana-to-kanji conversion.
pub struct Dictionary {
    entries: StringHashMap<Vec<String>>,
    keys: Vec<String>,
}

/// The entries of the built-in dictionary.
pub open spec fn builtin_dict() -> Map<Seq<char>, Seq<Seq<char>>> {
    map![
        "にほんご"@ => seq!["日本語"@],
        "てきすと"@ => seq!["テキスト"@, "文章"@],
        "へんしゅう"@ => seq!["編集"@],
        "ふぁいる"@ => seq!["ファイル"@],
    ]
}


/// A line without the `'\r'` that ends it, if any.
pub open spec fn strip_cr(p: Seq<char>) -> Seq<char> {
    if p.len() > 0 && p.last() == '\r' {
        p.drop_last()
    } else {
        p
    }
}

/// The lines of a text as std's `str::lines` gives them: the pieces between
/// `'\n'`s, each without a `'\r'` right before its `'\n'`, and no empty
/// piece after a final line break.
pub open spec fn text_lines(t: Seq<char>) -> Seq<Seq<char>> {
    let ps = split_lines(t);
    let n = if ps.last().len() == 0 {
        ps.len() - 1
    } else {
        ps.len() as int
    };
    Seq::new(n as nat, |k: int| if k < ps.len() - 1 { strip_cr(ps[k]) } else { ps[k] })
}

/// The first index from `i` on where `" /"` starts in `l`.
pub open spec fn find_sep_from(l: Seq<char>, i: int) -> Option<int>
    decreases l.len() - i,
{
    if i < 0 || i + 1 >= l.len() {
        None
    } else if l[i] == ' ' && l[i + 1] == '/' {
        Some(i)
    } else {
        find_sep_from(l, i + 1)
    }
}

/// The entry a dictionary line describes, in the form
/// `reading /candidate1/candidate2/`: the reading before the first `" /"`,
/// the candidates between the following slashes. Empty lines, comment
/// lines (starting with `";;"`) and lines of another form give none.
pub open spec fn jisyo_entry(l: Seq<char>) -> Option<(Seq<char>, Seq<Seq<char>>)> {
    if l.len() == 0 || (l.len() >= 2 && l[0] == ';' && l[1] == ';') {
        None
    } else {
        match find_sep_from(l, 0) {
            None => None,
            Some(k) => if k + 2 < l.len() && l.last() == '/' {
                Some((l.subrange(0, k), split_by(l.subrange(k + 2, l.len() - 1), '/')))
            } else {
                None
            },
        }
    }
}

/// `m` with the entries of the first `i` lines of `ls` added in order.
pub open spec fn load_lines(m: Map<Seq<char>, Seq<Seq<char>>>, ls: Seq<Seq<char>>, i: int) -> Map<
    Seq<char>,
    Seq<Seq<char>>,
>
    decreases i,
{
    if i <= 0 {
        m
    } else {
        let m2 = load_lines(m, ls, i - 1);
        match jisyo_entry(ls[i - 1]) {
            Some(e) => m2.insert(e.0, e.1),
            None => m2,
        }
    }
}

/// `m` with the entries of every line of the dictionary text `t` added.
pub open spec fn load_text(m: Map<Seq<char>, Seq<Seq<char>>>, t: Seq<char>) -> Map<
    Seq<char>,
    Seq<Seq<char>>,
> {
    load_lines(m, text_lines(t), text_lines(t).len() as int)
}


/// The first index where `" /"` starts in `l`.
fn find_sep(l: &Vec<char>) -> (r: Option<usize>)
    ensures
        r matches Some(k) ==> find_sep_from(l@, 0) == Some(k as int) && k + 1 < l@.len(),
        r is None ==> find_sep_from(l@, 0) is None,
{
    let n = l.len();
    let mut k: usize = 0;
    while k < n
        invariant
            n == l@.len(),
            find_sep_from(l@, 0) == find_sep_from(l@, k as int),
        decreases n - k,
    {
        if k + 1 >= n {
            return None;
        }
        if l[k] == ' ' && l[k + 1] == '/' {
            return Some(k);
        }
        k = k + 1;
    }
    None
}

/// One dictionary line: the reading, then its candidates between slashes.
pub open spec fn entry_line(k: Seq<char>, cands: Seq<Seq<char>>) -> Seq<char> {
    k + " /"@ + join_with(cands, '/') + "/"@
}

/// The dictionary text for the readings `ks` of `m`, in that order.
pub open spec fn jisyo_text(ks: Seq<Seq<char>>, m: Map<Seq<char>, Seq<Seq<char>>>) -> Seq<char> {
    join_with(ks.map_values(|k: Seq<char>| entry_line(k, m[k])), '\n') + seq!['\n']
}

impl View for Dictionary {
    type V = Map<Seq<char>, Seq<Seq<char>>>;

    closed spec fn view(&self) -> Map<Seq<char>, Seq<Seq<char>>> {
        self.entries@.map_values(|v: Vec<String>| lines_view(v@))
    }
}

impl Dictionary {
    /// Every reading is listed once in `keys`, and `keys` lists only
    /// readings that have entries.
    pub closed spec fn wf(&self) -> bool {
        &&& forall|i: int, j: int|
            0 <= i < j < self.keys@.len() ==> self.keys@[i]@ != self.keys@[j]@
        &&& forall|i: int| 0 <= i < self.keys@.len() ==> self.entries@.contains_key(
            #[trigger] self.keys@[i]@,
        )
        &&& forall|k: Seq<char>| #[trigger]
            self.entries@.contains_key(k) ==> exists|i: int|
                0 <= i < self.keys@.len() && self.keys@[i]@ == k
    }

    /// An empty dictionary.
    pub fn new() -> (d: Self)
        ensures
            d@ == Map::<Seq<char>, Seq<Seq<char>>>::empty(),
            d.wf(),
    {
        let d = Dictionary { entries: StringHashMap::new(), keys: Vec::new() };
        proof {
            assert(d@ =~= Map::<Seq<char>, Seq<Seq<char>>>::empty());
        }
        d
    }

    /// Sets the candidates of `key`, replacing any it had.
    fn insert_entry(&mut self, key: String, cands: Vec<String>)
        ensures
            final(self)@ == old(self)@.insert(key@, lines_view(cands@)),
            old(self).wf() ==> final(self).wf(),
    {
        let ghost old_view = self@;
        let ghost cv = lines_view(cands@);
        if !self.entries.contains_key(key.as_str()) {
            let k2 = key.clone();
            let ghost old_keys = self.keys@;
            self.keys.push(k2);
            self.entries.insert(key, cands);
            proof {
                if old(self).wf() {
                assert forall|k: Seq<char>| #[trigger]
                    self.entries@.contains_key(k) implies exists|i: int|
                    0 <= i < self.keys@.len() && self.keys@[i]@ == k by {
                    if k == key@ {
                        assert(self.keys@[old_keys.len() as int]@ == k);
                    } else {
                        assert(old(self).entries@.contains_key(k));
                        let i = choose|i: int| 0 <= i < old_keys.len() && old_keys[i]@ == k;
                        assert(self.keys@[i]@ == k);
                    }
                }
                assert forall|i: int| 0 <= i < self.keys@.len() implies self.entries@.contains_key(
                    #[trigger] self.keys@[i]@,
                ) by {
                    if i < old_keys.len() {
                        assert(self.keys@[i] == old_keys[i]);
                    }
                }
                assert forall|i: int, j: int|
                    0 <= i < j < self.keys@.len() implies self.keys@[i]@ != self.keys@[j]@ by {
                    if j == old_keys.len() {
                        assert(old(self).entries@.contains_key(old_keys[i]@));
                    }
                }
                }
            }
        } else {
            self.entries.insert(key, cands);
        }
        proof {
            assert(self@ =~= old_view.insert(key@, cv));
        }
    }

    /// The dictionary shipped with the editor.
    pub fn from_builtin() -> (d: Self)
        ensures
            d@ == builtin_dict(),
            d.wf(),
    {
        let mut dict = Self::new();
        let a1 = ["日本語"];
        let a2 = ["テキスト", "文章"];
        let a3 = ["編集"];
        let a4 = ["ファイル"];
        proof {
            assert(a1@.map_values(|s: &str| s@) =~= seq!["日本語"@]);
            assert(a2@.map_values(|s: &str| s@) =~= seq!["テキスト"@, "文章"@]);
            assert(a3@.map_values(|s: &str| s@) =~= seq!["編集"@]);
            assert(a4@.map_values(|s: &str| s@) =~= seq!["ファイル"@]);
        }
        dict.add("にほんご", &a1);
        dict.add("てきすと", &a2);
        dict.add("へんしゅう", &a3);
        dict.add("ふぁいる", &a4);
        proof {
            assert(dict@ =~= builtin_dict());
        }
        dict
    }

    /// Sets the candidates of `reading`, replacing any it had.
    pub fn add(&mut self, reading: &str, candidates: &[&str])
        ensures
            final(self)@ == old(self)@.insert(
                reading@,
                candidates@.map_values(|s: &str| s@),
            ),
            old(self).wf() ==> final(self).wf(),
    {
        let mut entry: Vec<String> = Vec::new();
        let mut i: usize = 0;
        while i < candidates.len()
            invariant
                i <= candidates@.len(),
                lines_view(entry@) == candidates@.map_values(|s: &str| s@).subrange(0, i as int),
            decreases candidates@.len() - i,
        {
            let ghost before = lines_view(entry@);
            entry.push(String::from_str(candidates[i]));
            proof {
                assert(lines_view(entry@) =~= before.push(candidates@[i as int]@));
                assert(candidates@.map_values(|s: &str| s@).subrange(0, i + 1) =~= candidates@.map_values(
                    |s: &str| s@,
                ).subrange(0, i as int).push(candidates@[i as int]@));
            }
            i = i + 1;
        }
        proof {
            assert(candidates@.map_values(|s: &str| s@).subrange(0, i as int) =~= candidates@.map_values(
                |s: &str| s@,
            ));
        }
        self.insert_entry(String::from_str(reading), entry);
    }

    /// The dictionary as SKK-JISYO text: one line `reading /c1/c2/` per
    /// entry, readings in increasing code point order, each line ended by
    /// a line break (an empty dictionary gives one line break).
    pub fn to_jisyo_text(&self) -> (r: String)
        requires
            self.wf(),
        ensures
            exists|ks: Seq<Seq<char>>|
                #[trigger] sorted_texts(ks) && (forall|x: Seq<char>| ks.contains(x) <==> self@.dom().contains(x))
                    && r@ == jisyo_text(ks, self@),
    {
        let sorted = sort_texts(&self.keys);
        let ghost sv = lines_view(sorted@);
        proof {
            assert forall|j: int| 0 <= j < sv.len() implies self.entries@.contains_key(#[trigger] sv[j]) by {
                assert(sv.contains(sv[j]));
                assert(lines_view(self.keys@).contains(sv[j]));
                let b = choose|b: int| 0 <= b < self.keys@.len() && lines_view(self.keys@)[b] == sv[j];
                assert(self.entries@.contains_key(self.keys@[b]@));
            }
        }
        let mut lines: Vec<String> = Vec::new();
        let mut i: usize = 0;
        while i < sorted.len()
            invariant
                i <= sorted@.len(),
                sv == lines_view(sorted@),
                forall|j: int| 0 <= j < sv.len() ==> self.entries@.contains_key(#[trigger] sv[j]),
                lines_view(lines@) == sv.subrange(0, i as int).map_values(
                    |k: Seq<char>| entry_line(k, self@[k]),
                ),
            decreases sorted@.len() - i,
        {
            let key = &sorted[i];
            proof {
                assert(self.entries@.contains_key(sv[i as int]));
            }
            let cands = self.entries.get(key.as_str()).unwrap();
            let mut line = key.clone();
            push_all(&mut line, " /");
            let joined = join_strings(cands, '/');
            push_all(&mut line, joined.as_str());
            push_all(&mut line, "/");
            let ghost before = lines_view(lines@);
            lines.push(line);
            proof {
                assert(self@[key@] == lines_view(cands@));
                assert(lines_view(lines@) =~= before.push(entry_line(key@, self@[key@])));
                assert(sv.subrange(0, i + 1).map_values(|k: Seq<char>| entry_line(k, self@[k])) =~= sv.subrange(
                    0,
                    i as int,
                ).map_values(|k: Seq<char>| entry_line(k, self@[k])).push(entry_line(key@, self@[key@])));
            }
            i = i + 1;
        }
        let mut r = join_strings(&lines, '\n');
        crate::text::push_char(&mut r, '\n');
        proof {
            assert(sv.subrange(0, sv.len() as int) =~= sv);
            assert forall|x: Seq<char>| sv.contains(x) <==> self@.dom().contains(x) by {
                if sv.contains(x) {
                    let j = choose|j: int| 0 <= j < sv.len() && sv[j] == x;
                    assert(self.entries@.contains_key(sv[j]));
                }
                if self@.dom().contains(x) {
                    assert(self.entries@.contains_key(x));
                    let b = choose|b: int| 0 <= b < self.keys@.len() && self.keys@[b]@ == x;
                    assert(lines_view(self.keys@)[b] == x);
                    assert(lines_view(self.keys@).contains(x));
                }
            }
            assert(sorted_texts(sv) && (forall|x: Seq<char>| sv.contains(x) <==> self@.dom().contains(x))
                && r@ == jisyo_text(sv, self@));
        }
        r
    }

    /// The candidates of `reading`, if it has an entry.
    pub fn lookup(&self, reading: &str) -> (r: Option<&Vec<String>>)
        ensures
            r is Some <==> self@.contains_key(reading@),
            r is Some ==> lines_view(r->0@) == self@[reading@],
    {
        self.entries.get(reading)
    }


    /// Adds the entry the dictionary line `l` describes, if any.
    fn load_line(&mut self, l: &Vec<char>)
        ensures
            final(self)@ == (match jisyo_entry(l@) {
                Some(e) => old(self)@.insert(e.0, e.1),
                None => old(self)@,
            }),
            old(self).wf() ==> final(self).wf(),
    {
        let n = l.len();
        if n == 0 || (n >= 2 && l[0] == ';' && l[1] == ';') {
            return;
        }
        let k = match find_sep(l) {
            Some(k) => k,
            None => {
                return;
            },
        };
        if k + 2 < n && l[n - 1] == '/' {
            let reading = string_of(l, 0, k);
            let cands = split_chars_by(l, k + 2, n - 1, '/');
            self.insert_entry(reading, cands);
        }
    }

    /// Adds the entries of a dictionary text in the form
    /// `reading /candidate1/candidate2/`, one per line; later lines replace
    /// earlier entries for the same reading.
    pub fn load_from_str(&mut self, content: &str)
        ensures
            final(self)@ == load_text(old(self)@, content@),
            old(self).wf() ==> final(self).wf(),
    {
        let chars = to_chars(content);
        let pieces = split_chars(&chars);
        let np = pieces.len();
        let last = to_chars(pieces[np - 1].as_str());
        let n = if last.len() == 0 {
            np - 1
        } else {
            np
        };
        let ghost ls = text_lines(content@);
        proof {
            assert(lines_view(pieces@)[np - 1] == pieces@[np - 1]@);
            assert(ls.len() == n);
        }
        let mut i: usize = 0;
        while i < n
            invariant
                i <= n <= np,
                np == pieces@.len(),
                lines_view(pieces@) == split_lines(content@),
                ls == text_lines(content@),
                ls.len() == n,
                self@ == load_lines(old(self)@, ls, i as int),
                old(self).wf() ==> self.wf(),
            decreases n - i,
        {
            let mut lc = to_chars(pieces[i].as_str());
            proof {
                assert(lines_view(pieces@)[i as int] == pieces@[i as int]@);
            }
            if i + 1 < np && lc.len() > 0 && lc[lc.len() - 1] == '\r' {
                lc.pop();
                proof {
                    assert(lc@ =~= strip_cr(pieces@[i as int]@));
                }
            }
            proof {
                assert(lc@ == ls[i as int]);
            }
            self.load_line(&lc);
            i = i + 1;
        }
    }

    /// Adds every entry of `other`, replacing entries with the same reading.
    pub fn merge(&mut self, other: &Dictionary)
        requires
            other.wf(),
        ensures
            final(self)@ == old(self)@.union_prefer_right(other@),
            old(self).wf() ==> final(self).wf(),
    {
        let n = other.keys.len();
        let mut i: usize = 0;
        while i < n
            invariant
                n == other.keys@.len(),
                i <= n,
                other.wf(),
                old(self).wf() ==> self.wf(),
                self@ == old(self)@.union_prefer_right(
                    other@.restrict(
                        Set::new(|k: Seq<char>| exists|j: int| 0 <= j < i && other.keys@[j]@ == k),
                    ),
                ),
            decreases n - i,
        {
            let key = &other.keys[i];
            proof {
                assert(other.entries@.contains_key(other.keys@[i as int]@));
            }
            let cands = other.entries.get(key.as_str()).unwrap();
            let copy = clone_strings(cands);
            let ghost before = self@;
            self.insert_entry(key.clone(), copy);
            proof {
                let s_old = Set::new(|k: Seq<char>| exists|j: int| 0 <= j < i && other.keys@[j]@ == k);
                let s_new = Set::new(|k: Seq<char>| exists|j: int| 0 <= j < i + 1 && other.keys@[j]@ == k);
                assert forall|k: Seq<char>| s_new.contains(k) <==> (s_old.contains(k) || k == other.keys@[i as int]@) by {
                    if s_new.contains(k) {
                        let j = choose|j: int| 0 <= j < i + 1 && other.keys@[j]@ == k;
                        if j < i {
                            assert(s_old.contains(k));
                        }
                    }
                    if s_old.contains(k) {
                        let j = choose|j: int| 0 <= j < i && other.keys@[j]@ == k;
                        assert(s_new.contains(k));
                    }
                    if k == other.keys@[i as int]@ {
                        assert(s_new.contains(k));
                    }
                }
                assert(self@ =~= old(self)@.union_prefer_right(other@.restrict(s_new)));
            }
            i = i + 1;
        }
        proof {
            let s_all = Set::new(|k: Seq<char>| exists|j: int| 0 <= j < n && other.keys@[j]@ == k);
            assert forall|k: Seq<char>| other@.contains_key(k) implies s_all.contains(k) by {
                assert(other.entries@.contains_key(k));
            }
            assert(other@.restrict(s_all) =~= other@);
        }
    }
}


/// The input state of the kana engine.
#[derive(Debug, Clone, Copy, PartialEq, Eq, Structural)]
pub enum SkkState {
    Direct,
    Hiragana,
    Katakana,
    Converting,
    Registering,
}

/// What the editor should do after the engine took a key.
#[derive(Debug, Clone, PartialEq, Eq)]
pub enum SkkAction {
    Nothing,
    Insert(String),
    Convert { reading: String, candidate: String },
    Cancel,
}

/// The action inserts exactly the text `t`.
pub open spec fn inserts(a: SkkAction, t: Seq<char>) -> bool {
    a matches SkkAction::Insert(s) && s@ == t
}

/// The action replaces the reading `rd` by the candidate `c`.
pub open spec fn converts(a: SkkAction, rd: Seq<char>, c: Seq<char>) -> bool {
    a matches SkkAction::Convert { reading, candidate } && reading@ == rd && candidate@ == c
}

/// A kana input engine in the style of SKK: romaji typed in a kana mode
/// become kana; a space looks the typed reading up in the dictionary and
/// offers its candidates.
pub struct SkkEngine {
    pub state: SkkState,
    pub preedit: String,
    pub reading: String,
    pub candidates: Vec<String>,
    pub candidate_index: usize,
    pub dict: Dictionary,
}

/// No pending romaji, reading or candidates.
pub open spec fn engine_clear(e: SkkEngine) -> bool {
    e.preedit@.len() == 0 && e.reading@.len() == 0 && e.candidates@.len() == 0
        && e.candidate_index == 0
}

/// The dictionary and candidate list are untouched.
pub open spec fn keeps_candidates(a: SkkEngine, b: SkkEngine) -> bool {
    lines_view(a.candidates@) == lines_view(b.candidates@) && a.candidate_index
        == b.candidate_index
}

/// The index after stepping forward through `n` candidates.
pub open spec fn next_index(i: usize, n: int) -> usize {
    if n > 0 {
        ((i + 1) % n) as usize
    } else {
        i
    }
}

/// The index after stepping back through `n` candidates.
pub open spec fn prev_index(i: usize, n: int) -> usize {
    if n > 0 {
        if i == 0 {
            (n - 1) as usize
        } else {
            (i - 1) as usize
        }
    } else {
        i
    }
}

/// Engine `e2` with action `r` is what starting a conversion in `e1` gives:
/// unconverted romaji become kana first; otherwise the reading's
/// candidates (or the reading itself, if the dictionary has none) are
/// offered, starting with the first.
pub open spec fn conversion_started(e1: SkkEngine, e2: SkkEngine, r: SkkAction) -> bool {
    &&& e2.dict@ == e1.dict@
    &&& if e1.preedit@.len() > 0 && romaji_kana(e1.preedit@) is Some {
        let k = romaji_kana(e1.preedit@)->0;
        &&& e2.state == e1.state
        &&& e2.preedit@.len() == 0
        &&& e2.reading@ == e1.reading@ + k
        &&& keeps_candidates(e1, e2)
        &&& inserts(r, k)
    } else {
        &&& e2.state == SkkState::Converting
        &&& e2.preedit@ == e1.preedit@
        &&& e2.reading@ == e1.reading@
        &&& e2.candidate_index == 0
        &&& lines_view(e2.candidates@) == (if e1.dict@.contains_key(e1.reading@) {
            e1.dict@[e1.reading@]
        } else {
            seq![e1.reading@]
        })
        &&& r == SkkAction::Nothing
    }
}

/// Engine `e2` with action `r` is what a key `ch` in a kana mode (`kata`:
/// katakana) does to `e1`.
pub open spec fn kana_step(e1: SkkEngine, e2: SkkEngine, ch: char, kata: bool, r: SkkAction) -> bool {
    if ch == ' ' {
        if e1.reading@.len() == 0 {
            inserts(r, seq![' ']) && e2 == e1
        } else {
            conversion_started(e1, e2, r)
        }
    } else if !kata && (ch == '\n' || ch == '\r') {
        if e1.preedit@.len() > 0 {
            &&& inserts(r, e1.preedit@)
            &&& e2.preedit@.len() == 0
            &&& e2.reading@.len() == 0
            &&& e2.state == e1.state
            &&& e2.dict@ == e1.dict@
            &&& keeps_candidates(e1, e2)
        } else {
            inserts(r, seq![ch]) && e2 == e1
        }
    } else {
        let p2 = e1.preedit@.push(ch);
        &&& e2.state == e1.state
        &&& e2.dict@ == e1.dict@
        &&& keeps_candidates(e1, e2)
        &&& match romaji_kana(p2) {
            Some(k) => {
                let out = if kata {
                    k.map_values(|c: char| hira_to_kata_spec(c))
                } else {
                    k
                };
                &&& e2.preedit@.len() == 0
                &&& e2.reading@ == e1.reading@ + out
                &&& inserts(r, out)
            },
            None => e2.preedit@ == p2 && e2.reading@ == e1.reading@ && r == SkkAction::Nothing,
        }
    }
}

/// Engine `e2` with action `r` is `e1` after committing its current
/// candidate: the reading is replaced and the engine is back in hiragana
/// mode with nothing pending.
pub open spec fn committed(e1: SkkEngine, e2: SkkEngine, r: SkkAction) -> bool {
    &&& converts(r, e1.reading@, e1.candidates@[e1.candidate_index as int]@)
    &&& e2.state == SkkState::Hiragana
    &&& engine_clear(e2)
    &&& e2.dict@ == e1.dict@
}

/// `b` is the engine `a` after switching between direct input and
/// hiragana; leaving a kana mode drops anything pending.
pub open spec fn toggled_engine(a: SkkEngine, b: SkkEngine) -> bool {
    &&& a.state == SkkState::Direct ==> b.state == SkkState::Hiragana && b.preedit == a.preedit
        && b.reading == a.reading && b.candidates == a.candidates && b.candidate_index
        == a.candidate_index
    &&& a.state != SkkState::Direct ==> b.state == SkkState::Direct && engine_clear(b)
    &&& b.dict == a.dict
}

/// Engine `e2` with action `r` is what feeding the character `ch` does to
/// `e1`: direct input passes it through, the kana modes convert romaji
/// (registering falls back to hiragana), and while converting a space steps
/// to the next candidate and any other character commits the current one.
pub open spec fn char_processed(e1: SkkEngine, e2: SkkEngine, ch: char, r: SkkAction) -> bool {
    match e1.state {
        SkkState::Direct => inserts(r, seq![ch]) && e2 == e1,
        SkkState::Hiragana => kana_step(e1, e2, ch, false, r),
        SkkState::Katakana => kana_step(e1, e2, ch, true, r),
        SkkState::Registering => kana_step(SkkEngine { state: SkkState::Hiragana, ..e1 }, e2, ch, false, r),
        SkkState::Converting => if ch == ' ' {
            &&& r == SkkAction::Nothing
            &&& e2.candidate_index == next_index(e1.candidate_index, e1.candidates@.len() as int)
            &&& e2.state == e1.state
            &&& e2.preedit == e1.preedit
            &&& e2.reading == e1.reading
            &&& e2.candidates == e1.candidates
            &&& e2.dict == e1.dict
        } else {
            committed(e1, e2, r)
        },
    }
}

/// Engine `e2` with action `r` is `e1` after a cancel: a conversion is
/// abandoned (back to hiragana, keeping the reading and what is pending),
/// a kana mode drops what is pending, and otherwise nothing happens.
pub open spec fn cancelled(e1: SkkEngine, e2: SkkEngine, r: SkkAction) -> bool {
    &&& e2.dict == e1.dict
    &&& e1.state == SkkState::Converting ==> r == SkkAction::Cancel && e2.state == SkkState::Hiragana
        && e2.candidates@.len() == 0 && e2.candidate_index == 0 && e2.preedit == e1.preedit
        && e2.reading == e1.reading
    &&& (e1.state == SkkState::Hiragana || e1.state == SkkState::Katakana) ==> r == SkkAction::Cancel
        && e2.state == e1.state && engine_clear(e2)
    &&& (e1.state == SkkState::Direct || e1.state == SkkState::Registering) ==> r == SkkAction::Nothing
        && e2 == e1
}

/// `e2` and `act` are what confirming in the engine `e1` gives: while
/// converting with candidates the current one is committed; otherwise
/// nothing happens.
pub open spec fn confirmed(e1: SkkEngine, e2: SkkEngine, act: SkkAction) -> bool {
    if e1.state == SkkState::Converting && e1.candidates@.len() > 0 {
        committed(e1, e2, act)
    } else {
        act == SkkAction::Nothing && e2 == e1
    }
}

/// Engine `e2` is `e1` with the candidate index moved to `i` and all else
/// kept.
pub open spec fn index_moved(e1: SkkEngine, e2: SkkEngine, i: usize) -> bool {
    &&& e2.candidate_index == i
    &&& e2.state == e1.state
    &&& e2.preedit == e1.preedit
    &&& e2.reading == e1.reading
    &&& e2.candidates == e1.candidates
    &&& e2.dict == e1.dict
}

/// Every reading in the dictionary has at least one candidate.
pub open spec fn entries_nonempty(d: Map<Seq<char>, Seq<Seq<char>>>) -> bool {
    forall|k: Seq<char>| #[trigger] d.contains_key(k) ==> d[k].len() > 0
}

/// While converting, the candidate index points at a candidate, and the
/// dictionary has no reading without candidates.
pub open spec fn index_in_range(e: SkkEngine) -> bool {
    &&& entries_nonempty(e.dict@)
    &&& e.state == SkkState::Converting ==> e.candidate_index < e.candidates@.len()
}

impl SkkEngine {
    /// A new engine in direct mode with the built-in dictionary.
    pub fn new() -> (e: Self)
        ensures
            e.state == SkkState::Direct,
            engine_clear(e),
            e.dict@ == builtin_dict(),
            e.dict.wf(),
    {
        Self {
            state: SkkState::Direct,
            preedit: String::new(),
            reading: String::new(),
            candidates: Vec::new(),
            candidate_index: 0,
            dict: Dictionary::from_builtin(),
        }
    }

    /// Adds the entries of a system dictionary text (see
    /// `Dictionary::load_from_str`), replacing entries for the same reading.
    pub fn load_system_dictionary(&mut self, contents: &str)
        ensures
            final(self).dict@ == old(self).dict@.union_prefer_right(
                load_text(Map::empty(), contents@),
            ),
            old(self).dict.wf() ==> final(self).dict.wf(),
            final(self).state == old(self).state,
            final(self).preedit == old(self).preedit,
            final(self).reading == old(self).reading,
            final(self).candidates == old(self).candidates,
            final(self).candidate_index == old(self).candidate_index,
    {
        let mut dict = Dictionary::new();
        dict.load_from_str(contents);
        self.dict.merge(&dict);
    }

    /// Adds the entries of a user dictionary text, replacing entries for the
    /// same reading.
    pub fn load_user_dictionary(&mut self, contents: &str)
        ensures
            final(self).dict@ == old(self).dict@.union_prefer_right(
                load_text(Map::empty(), contents@),
            ),
            old(self).dict.wf() ==> final(self).dict.wf(),
            final(self).state == old(self).state,
            final(self).preedit == old(self).preedit,
            final(self).reading == old(self).reading,
            final(self).candidates == old(self).candidates,
            final(self).candidate_index == old(self).candidate_index,
    {
        let mut dict = Dictionary::new();
        dict.load_from_str(contents);
        self.dict.merge(&dict);
    }

    /// Switches between direct input and hiragana; leaving a kana mode drops
    /// anything pending.
    pub fn toggle(&mut self) -> (r: SkkAction)
        ensures
            r == SkkAction::Nothing,
            toggled_engine(*old(self), *final(self)),
    {
        match self.state {
            SkkState::Direct => {
                self.state = SkkState::Hiragana;
                SkkAction::Nothing
            },
            _ => {
                self.state = SkkState::Direct;
                self.clear();
                SkkAction::Nothing
            },
        }
    }

    /// Feeds one typed character to the engine.
    pub fn process_char(&mut self, ch: char) -> (r: SkkAction)
        requires
            old(self).state == SkkState::Converting && ch != ' ' ==> old(self).candidate_index
                < old(self).candidates@.len(),
        ensures
            char_processed(*old(self), *final(self), ch, r),
    {
        match self.state {
            SkkState::Direct => SkkAction::Insert(char_string(ch)),
            SkkState::Hiragana => self.process_hiragana(ch),
            SkkState::Katakana => self.process_katakana(ch),
            SkkState::Converting => self.process_converting(ch),
            SkkState::Registering => {
                self.state = SkkState::Hiragana;
                self.process_hiragana(ch)
            },
        }
    }

    /// Commits the current candidate while converting.
    pub fn confirm(&mut self) -> (r: SkkAction)
        requires
            old(self).state == SkkState::Converting && old(self).candidates@.len() > 0 ==> old(
                self,
            ).candidate_index < old(self).candidates@.len(),
        ensures
            confirmed(*old(self), *final(self), r),
    {
        match self.state {
            SkkState::Converting => {
                if self.candidates.len() > 0 {
                    self.commit_candidate()
                } else {
                    SkkAction::Nothing
                }
            },
            _ => SkkAction::Nothing,
        }
    }

    /// Abandons a conversion (back to hiragana, keeping the reading), or
    /// drops what is pending in a kana mode.
    pub fn cancel(&mut self) -> (r: SkkAction)
        ensures
            cancelled(*old(self), *final(self), r),
    {
        match self.state {
            SkkState::Converting => {
                self.state = SkkState::Hiragana;
                self.candidates = Vec::new();
                self.candidate_index = 0;
                SkkAction::Cancel
            },
            SkkState::Hiragana | SkkState::Katakana => {
                self.clear();
                SkkAction::Cancel
            },
            _ => SkkAction::Nothing,
        }
    }

    /// Moves to the next candidate, wrapping around.
    pub fn next_candidate(&mut self)
        ensures
            index_moved(
                *old(self),
                *final(self),
                next_index(old(self).candidate_index, old(self).candidates@.len() as int),
            ),
    {
        let n = self.candidates.len();
        if n > 0 {
            self.candidate_index = (self.candidate_index % n + 1) % n;
            proof {
                let i = old(self).candidate_index as int;
                assert((i % (n as int) + 1) % (n as int) == (i + 1) % (n as int)) by (nonlinear_arith)
                    requires
                        n > 0,
                        i >= 0,
                {
                    vstd::arithmetic::div_mod::lemma_add_mod_noop(i, 1, n as int);
                    if n > 1 {
                        vstd::arithmetic::div_mod::lemma_small_mod(1nat, n as nat);
                    }
                };
            }
        }
    }

    /// Moves to the previous candidate, wrapping around.
    pub fn previous_candidate(&mut self)
        ensures
            index_moved(
                *old(self),
                *final(self),
                prev_index(old(self).candidate_index, old(self).candidates@.len() as int),
            ),
    {
        let n = self.candidates.len();
        if n > 0 {
            if self.candidate_index == 0 {
                self.candidate_index = n - 1;
            } else {
                self.candidate_index = self.candidate_index - 1;
            }
        }
    }

    /// The candidate currently offered, if any.
    pub fn current_candidate(&self) -> (r: Option<&str>)
        ensures
            r is Some <==> self.candidate_index < self.candidates@.len(),
            r is Some ==> r->0@ == self.candidates@[self.candidate_index as int]@,
    {
        if self.candidate_index < self.candidates.len() {
            Some(self.candidates[self.candidate_index].as_str())
        } else {
            None
        }
    }

    fn clear(&mut self)
        ensures
            engine_clear(*final(self)),
            final(self).state == old(self).state,
            final(self).dict == old(self).dict,
    {
        self.preedit = String::new();
        self.reading = String::new();
        self.candidates = Vec::new();
        self.candidate_index = 0;
    }

    fn commit_candidate(&mut self) -> (r: SkkAction)
        requires
            old(self).candidate_index < old(self).candidates@.len(),
        ensures
            committed(*old(self), *final(self), r),
    {
        let candidate = self.candidates[self.candidate_index].clone();
        let reading = self.reading.clone();
        self.state = SkkState::Hiragana;
        self.clear();
        SkkAction::Convert { reading, candidate }
    }

    fn process_hiragana(&mut self, ch: char) -> (r: SkkAction)
        ensures
            kana_step(*old(self), *final(self), ch, false, r),
    {
        if ch == ' ' {
            if self.reading.as_str().unicode_len() == 0 {
                return SkkAction::Insert(char_string(' '));
            }
            return self.start_conversion();
        }
        if ch == '\n' || ch == '\r' {
            if self.preedit.as_str().unicode_len() > 0 {
                let result = self.flush_preedit();
                self.reading = String::new();
                return result;
            }
            return SkkAction::Insert(char_string(ch));
        }
        push_char(&mut self.preedit, ch);
        if let Some(kana) = try_convert_romaji(self.preedit.as_str()) {
            self.preedit = String::new();
            self.reading.append(kana.as_str());
            return SkkAction::Insert(kana);
        }
        SkkAction::Nothing
    }

    fn process_katakana(&mut self, ch: char) -> (r: SkkAction)
        ensures
            kana_step(*old(self), *final(self), ch, true, r),
    {
        if ch == ' ' {
            if self.reading.as_str().unicode_len() == 0 {
                return SkkAction::Insert(char_string(' '));
            }
            return self.start_conversion();
        }
        push_char(&mut self.preedit, ch);
        if let Some(hiragana) = try_convert_romaji(self.preedit.as_str()) {
            self.preedit = String::new();
            let katakana = to_katakana(hiragana.as_str());
            self.reading.append(katakana.as_str());
            return SkkAction::Insert(katakana);
        }
        SkkAction::Nothing
    }

    fn process_converting(&mut self, ch: char) -> (r: SkkAction)
        requires
            ch != ' ' ==> old(self).candidate_index < old(self).candidates@.len(),
        ensures
            ch == ' ' ==> r == SkkAction::Nothing && final(self).candidate_index == next_index(
                old(self).candidate_index,
                old(self).candidates@.len() as int,
            ) && final(self).state == old(self).state && final(self).preedit == old(self).preedit
                && final(self).reading == old(self).reading && final(self).candidates == old(
                self,
            ).candidates && final(self).dict == old(self).dict,
            ch != ' ' ==> committed(*old(self), *final(self), r),
    {
        if ch == ' ' {
            self.next_candidate();
            SkkAction::Nothing
        } else {
            self.commit_candidate()
        }
    }

    pub fn start_conversion(&mut self) -> (r: SkkAction)
        ensures
            conversion_started(*old(self), *final(self), r),
    {
        if self.preedit.as_str().unicode_len() > 0 {
            if let Some(kana) = try_convert_romaji(self.preedit.as_str()) {
                self.preedit = String::new();
                self.reading.append(kana.as_str());
                return SkkAction::Insert(kana);
            }
        }
        match self.dict.lookup(self.reading.as_str()) {
            Some(candidates) => {
                self.candidates = clone_strings(candidates);
            },
            None => {
                let mut v: Vec<String> = Vec::new();
                v.push(self.reading.clone());
                proof {
                    assert(lines_view(v@) =~= seq![self.reading@]);
                }
                self.candidates = v;
            },
        }
        self.candidate_index = 0;
        self.state = SkkState::Converting;
        SkkAction::Nothing
    }

    fn flush_preedit(&mut self) -> (r: SkkAction)
        ensures
            inserts(r, old(self).preedit@),
            final(self).preedit@.len() == 0,
            final(self).reading == old(self).reading,
            final(self).state == old(self).state,
            final(self).candidates == old(self).candidates,
            final(self).candidate_index == old(self).candidate_index,
            final(self).dict == old(self).dict,
    {
        let result = self.preedit.clone();
        self.preedit = String::new();
        SkkAction::Insert(result)
    }
}

} // verus!
