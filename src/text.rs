//! Text statistics: character, word, line and paragraph counts.
//!
//! The character count is the length of the text's UTF-8 form, in bytes,
//! as `str::len` gives it; the other counts go by `char`s.
use vstd::prelude::*;

verus! {

/// Unicode `White_Space`, the property that `char::is_whitespace` tests.
pub open spec fn is_ws(c: char) -> bool {
    let u = c as u32;
    (9 <= u && u <= 13) || u == 32 || u == 0x85 || u == 0xa0 || u == 0x1680 || (0x2000 <= u && u
        <= 0x200a) || u == 0x2028 || u == 0x2029 || u == 0x202f || u == 0x205f || u == 0x3000
}

/// True when every character of `s` is whitespace (the empty text included).
pub open spec fn is_blank(s: Seq<char>) -> bool {
    forall|i: int| 0 <= i < s.len() ==> is_ws(#[trigger] s[i])
}

/// The maximal runs of non-whitespace characters of `s`, in order.
pub open spec fn words(s: Seq<char>) -> Seq<Seq<char>>
    decreases s.len(),
{
    if s.len() == 0 {
        seq![]
    } else {
        let init = words(s.drop_last());
        let c = s.last();
        if is_ws(c) {
            init
        } else if s.len() >= 2 && !is_ws(s[s.len() - 2]) {
            init.drop_last().push(init.last().push(c))
        } else {
            init.push(seq![c])
        }
    }
}

/// The number of characters of `s` that are not whitespace.
pub open spec fn non_ws_count(s: Seq<char>) -> nat
    decreases s.len(),
{
    if s.len() == 0 {
        0
    } else {
        non_ws_count(s.drop_last()) + if is_ws(s.last()) { 0nat } else { 1nat }
    }
}

/// The number of occurrences of `c` in `s`.
pub open spec fn occurrences(s: Seq<char>, c: char) -> nat
    decreases s.len(),
{
    if s.len() == 0 {
        0
    } else {
        occurrences(s.drop_last(), c) + if s.last() == c { 1nat } else { 0nat }
    }
}

/// The number of lines as `str::lines` yields them: one per `'\n'`, and one
/// more for a last line that no `'\n'` ends.
pub open spec fn line_count(s: Seq<char>) -> nat {
    occurrences(s, '\n') + if s.len() > 0 && s.last() != '\n' { 1nat } else { 0nat }
}

/// Cutting `s` at each `"\n\n"`, left to right and without overlap, the
/// number of pieces that hold a non-whitespace character; `open` says that
/// the piece before `s` holds one and is not yet closed.
pub open spec fn paragraphs_from(s: Seq<char>, open: bool) -> nat
    decreases s.len(),
{
    if s.len() == 0 {
        if open { 1 } else { 0 }
    } else if s.len() >= 2 && s[0] == '\n' && s[1] == '\n' {
        (if open { 1nat } else { 0nat }) + paragraphs_from(s.skip(2), false)
    } else {
        paragraphs_from(s.skip(1), open || !is_ws(s[0]))
    }
}

/// The number of non-blank paragraphs of `s`, paragraphs being separated by `"\n\n"`.
pub open spec fn paragraph_count(s: Seq<char>) -> nat {
    paragraphs_from(s, false)
}

/// `n / w` rounded to tenths, as a number of tenths; 0 when `w` is 0. A
/// quotient exactly halfway between two tenths goes to the even one, as
/// `{:.1}` formatting rounds a tie.
pub open spec fn tenths_of_ratio(n: nat, w: nat) -> nat {
    if w == 0 {
        0
    } else {
        let q = (10 * n) / w;
        let rem = (10 * n) % w;
        if 2 * rem > w || (2 * rem == w && q % 2 == 1) {
            q + 1
        } else {
            q
        }
    }
}

/// Whether `c` is whitespace in the sense of `char::is_whitespace`.
pub fn is_whitespace(c: char) -> (r: bool)
    ensures
        r == is_ws(c),
{
    let u = c as u32;
    (9 <= u && u <= 13) || u == 32 || u == 0x85 || u == 0xa0 || u == 0x1680 || (0x2000 <= u && u
        <= 0x200a) || u == 0x2028 || u == 0x2029 || u == 0x202f || u == 0x205f || u == 0x3000
}

/// Whether every character of `s` is whitespace.
pub fn blank(s: &str) -> (r: bool)
    ensures
        r == is_blank(s@),
{
    let v = crate::chars::chars_of(s);
    let mut i: usize = 0;
    while i < v.len()
        invariant
            i <= v.len(),
            v@ == s@,
            forall|j: int| 0 <= j < i ==> is_ws(#[trigger] v@[j]),
        decreases v.len() - i,
    {
        if !is_whitespace(v[i]) {
            return false;
        }
        i += 1;
    }
    true
}

proof fn lemma_words_last_open(s: Seq<char>)
    requires
        s.len() > 0,
        !is_ws(s.last()),
    ensures
        words(s).len() > 0,
    decreases s.len(),
{
}

/// Every word holds at least one character.
pub proof fn lemma_words_nonempty(s: Seq<char>)
    ensures
        forall|i: int| 0 <= i < words(s).len() ==> #[trigger] words(s)[i].len() > 0,
    decreases s.len(),
{
    if s.len() > 0 {
        let init = words(s.drop_last());
        lemma_words_nonempty(s.drop_last());
        let c = s.last();
        if !is_ws(c) && s.len() >= 2 && !is_ws(s[s.len() - 2]) {
            assert(s.drop_last().last() == s[s.len() - 2]);
            lemma_words_last_open(s.drop_last());
            assert forall|i: int| 0 <= i < words(s).len() implies #[trigger] words(s)[i].len()
                > 0 by {
                if i < init.len() - 1 {
                    assert(words(s)[i] == init[i]);
                }
            }
        } else if !is_ws(c) {
            assert forall|i: int| 0 <= i < words(s).len() implies #[trigger] words(s)[i].len()
                > 0 by {
                if i < init.len() {
                    assert(words(s)[i] == init[i]);
                }
            }
        }
    }
}

/// The views of a sequence of character vectors.
pub open spec fn views(v: Seq<Vec<char>>) -> Seq<Seq<char>> {
    v.map_values(|w: Vec<char>| w@)
}

/// The words of `v`, as `str::split_whitespace` yields them.
pub fn split_words(v: &Vec<char>) -> (r: Vec<Vec<char>>)
    ensures
        views(r@) == words(v@),
{
    let mut out: Vec<Vec<char>> = Vec::new();
    let mut cur: Vec<char> = Vec::new();
    let mut i: usize = 0;
    while i < v.len()
        invariant
            i <= v.len(),
            words(v@.take(i as int)) == views(out@) + if cur.len() > 0 {
                seq![cur@]
            } else {
                seq![]
            },
            cur.len() > 0 <==> (i > 0 && !is_ws(v@[i - 1])),
        decreases v.len() - i,
    {
        let c = v[i];
        let ghost before = views(out@);
        proof {
            assert(v@.take(i + 1).drop_last() =~= v@.take(i as int));
            assert(v@.take(i + 1).last() == c);
        }
        if is_whitespace(c) {
            if cur.len() > 0 {
                let done = cur;
                out.push(done);
                cur = Vec::new();
                assert(views(out@) =~= before.push(done@));
            }
        } else {
            let ghost prev = cur@;
            cur.push(c);
            proof {
                if prev.len() > 0 {
                    assert((before + seq![prev]).drop_last() =~= before);
                    assert(before.push(cur@) =~= before + seq![cur@]);
                } else {
                    assert(cur@ =~= seq![c]);
                    assert(before.push(seq![c]) =~= before + seq![cur@]);
                }
            }
        }
        i += 1;
    }
    let ghost before = views(out@);
    if cur.len() > 0 {
        let done = cur;
        out.push(done);
        assert(views(out@) =~= before.push(done@));
    }
    assert(v@.take(i as int) =~= v@);
    assert(views(out@) =~= words(v@));
    out
}

/// The number of words of `v`.
pub fn word_count(v: &Vec<char>) -> (r: usize)
    ensures
        r == words(v@).len(),
{
    let mut count: usize = 0;
    let mut i: usize = 0;
    while i < v.len()
        invariant
            i <= v.len(),
            count == words(v@.take(i as int)).len(),
            count <= i,
        decreases v.len() - i,
    {
        let c = v[i];
        proof {
            assert(v@.take(i + 1).drop_last() =~= v@.take(i as int));
            assert(v@.take(i + 1).last() == c);
            if i > 0 && !is_ws(v@[i - 1]) {
                assert(v@.take(i as int).last() == v@[i - 1]);
                lemma_words_last_open(v@.take(i as int));
            }
        }
        if !is_whitespace(c) && (i == 0 || is_whitespace(v[i - 1])) {
            count += 1;
        }
        i += 1;
    }
    assert(v@.take(i as int) =~= v@);
    count
}

/// The number of characters of `v` that are not whitespace.
pub fn count_non_whitespace(v: &Vec<char>) -> (r: usize)
    ensures
        r == non_ws_count(v@),
{
    let mut count: usize = 0;
    let mut i: usize = 0;
    while i < v.len()
        invariant
            i <= v.len(),
            count == non_ws_count(v@.take(i as int)),
            count <= i,
        decreases v.len() - i,
    {
        proof {
            assert(v@.take(i + 1).drop_last() =~= v@.take(i as int));
        }
        if !is_whitespace(v[i]) {
            count += 1;
        }
        i += 1;
    }
    assert(v@.take(i as int) =~= v@);
    count
}

/// The number of occurrences of `c` in `v`.
pub fn count_char(v: &Vec<char>, c: char) -> (r: usize)
    ensures
        r == occurrences(v@, c),
{
    let mut count: usize = 0;
    let mut i: usize = 0;
    while i < v.len()
        invariant
            i <= v.len(),
            count == occurrences(v@.take(i as int), c),
            count <= i,
        decreases v.len() - i,
    {
        proof {
            assert(v@.take(i + 1).drop_last() =~= v@.take(i as int));
        }
        if v[i] == c {
            count += 1;
        }
        i += 1;
    }
    assert(v@.take(i as int) =~= v@);
    count
}

/// The number of non-blank paragraphs of `v`.
pub fn count_paragraphs(v: &Vec<char>) -> (r: usize)
    ensures
        r == paragraph_count(v@),
{
    let mut count: usize = 0;
    let mut open = false;
    let mut i: usize = 0;
    assert(v@.skip(0) =~= v@);
    while i < v.len()
        invariant
            i <= v.len(),
            count + paragraphs_from(v@.skip(i as int), open) == paragraphs_from(v@, false),
            count + (if open { 1int } else { 0int }) <= i,
        decreases v.len() - i,
    {
        let ghost rest = v@.skip(i as int);
        assert(rest[0] == v@[i as int]);
        if i + 1 < v.len() && v[i] == '\n' && v[i + 1] == '\n' {
            assert(rest[1] == v@[i + 1]);
            assert(rest.skip(2) =~= v@.skip(i + 2));
            if open {
                count += 1;
            }
            open = false;
            i += 2;
        } else {
            assert(rest.skip(1) =~= v@.skip(i + 1));
            open = open || !is_whitespace(v[i]);
            i += 1;
        }
    }
    if open {
        count += 1;
    }
    count
}

/// Counts of a text. `characters` counts UTF-8 bytes, the others `char`s;
/// the average word length is
/// given in tenths.
#[derive(Clone, Copy, Debug, PartialEq, Eq)]
pub struct TextStats {
    pub characters: usize,
    pub words: usize,
    pub lines: usize,
    pub paragraphs: usize,
    pub non_whitespace: usize,
    pub average_word_length_tenths: u128,
}

impl TextStats {
    /// The statistics of `s`, field by field.
    pub open spec fn describes(self, s: Seq<char>) -> bool {
        &&& self.characters == vstd::utf8::encode_utf8(s).len()
        &&& self.words == words(s).len()
        &&& self.lines == line_count(s)
        &&& self.paragraphs == paragraph_count(s)
        &&& self.non_whitespace == non_ws_count(s)
        &&& self.average_word_length_tenths == tenths_of_ratio(non_ws_count(s), words(s).len())
    }

    /// The average word length as text: `"0"` when there are no words, else
    /// with exactly one decimal, as in `"2.0"`.
    pub open spec fn average_text(self) -> Seq<char> {
        if self.words == 0 {
            seq!['0']
        } else {
            crate::chars::decimal((self.average_word_length_tenths / 10) as nat).push('.').push(
                crate::chars::digit_char((self.average_word_length_tenths % 10) as nat),
            )
        }
    }

    /// The average word length, formatted with one decimal (`"0"` without words).
    pub fn average_word_length(&self) -> (r: String)
        ensures
            r@ == self.average_text(),
    {
        let mut out: Vec<char> = Vec::new();
        if self.words == 0 {
            out.push('0');
        } else {
            let t = self.average_word_length_tenths;
            let whole = t / 10;
            let tenth = t % 10;
            crate::chars::push_decimal_wide(&mut out, whole);
            out.push('.');
            out.push(crate::chars::digit_of(tenth));
            assert(out@ =~= self.average_text());
        }
        crate::chars::string_from_chars(&out)
    }
}

/// The statistics of `text`: its characters, words, lines, paragraphs,
/// non-whitespace characters and average word length.
pub fn text_statistics(text: &str) -> (r: TextStats)
    ensures
        r.describes(text@),
{
    let v = crate::chars::chars_of(text);
    let words = word_count(&v);
    let newlines = count_char(&v, '\n');
    let paragraphs = count_paragraphs(&v);
    let non_whitespace = count_non_whitespace(&v);
    let ends_open = v.len() > 0 && v[v.len() - 1] != '\n';
    proof {
        lemma_occurrences_bounded(v@, '\n');
    }
    let lines = if ends_open { newlines + 1 } else { newlines };
    let average = if words == 0 {
        0u128
    } else {
        let scaled = 10 * (non_whitespace as u128);
        let w = words as u128;
        let q = scaled / w;
        let rem = scaled % w;
        if 2 * rem > w || (2 * rem == w && q % 2 == 1) {
            q + 1
        } else {
            q
        }
    };
    TextStats {
        characters: text.as_bytes().len(),
        words,
        lines,
        paragraphs,
        non_whitespace,
        average_word_length_tenths: average,
    }
}

proof fn lemma_occurrences_bounded(s: Seq<char>, c: char)
    ensures
        occurrences(s, c) <= s.len(),
        s.len() > 0 && s.last() != c ==> occurrences(s, c) < s.len(),
    decreases s.len(),
{
    if s.len() > 0 {
        lemma_occurrences_bounded(s.drop_last(), c);
    }
}

/// What `str::to_uppercase` returns for `s`.
pub uninterp spec fn upper_of(s: Seq<char>) -> Seq<char>;

/// What `str::to_lowercase` returns for `s`.
pub uninterp spec fn lower_of(s: Seq<char>) -> Seq<char>;

/// The first character of what `char::to_uppercase` yields for `c`.
pub uninterp spec fn upper_first_of(c: char) -> char;

/// Relies on `str::to_uppercase`.
#[verifier::external_body]
fn uppercase(s: &str) -> (r: String)
    ensures
        r@ == upper_of(s@),
{
    s.to_uppercase()
}

/// Relies on `str::to_lowercase`.
#[verifier::external_body]
fn lowercase(s: &str) -> (r: String)
    ensures
        r@ == lower_of(s@),
{
    s.to_lowercase()
}

/// Relies on `char::to_uppercase`, which yields at least one character.
#[verifier::external_body]
fn upper_first(c: char) -> (r: char)
    ensures
        r == upper_first_of(c),
{
    c.to_uppercase().next().unwrap_or(c)
}

/// `text` in upper case.
pub fn to_upper(text: &str) -> (r: String)
    ensures
        r@ == upper_of(text@),
{
    uppercase(text)
}

/// `text` in lower case.
pub fn to_lower(text: &str) -> (r: String)
    ensures
        r@ == lower_of(text@),
{
    lowercase(text)
}

/// `w` with its first character upper-cased.
pub open spec fn capitalized(w: Seq<char>) -> Seq<char> {
    if w.len() == 0 {
        w
    } else {
        seq![upper_first_of(w[0])] + w.skip(1)
    }
}

/// The words of `s`, each capitalized, joined by single spaces.
pub open spec fn title_cased(s: Seq<char>) -> Seq<char> {
    crate::chars::joined_with(words(s).map_values(|w: Seq<char>| capitalized(w)), ' ')
}

/// `text` in title case: its words, each with an upper-case first
/// character, joined by single spaces.
pub fn to_title_case(text: &str) -> (r: String)
    ensures
        r@ == title_cased(text@),
{
    let v = crate::chars::chars_of(text);
    let ws = split_words(&v);
    let mut caps: Vec<Vec<char>> = Vec::new();
    let mut i: usize = 0;
    while i < ws.len()
        invariant
            i <= ws.len(),
            views(ws@) == words(v@),
            views(caps@) == words(v@).take(i as int).map_values(|w: Seq<char>| capitalized(w)),
        decreases ws.len() - i,
    {
        let w = &ws[i];
        let mut c: Vec<char> = Vec::new();
        if w.len() > 0 {
            c.push(upper_first(w[0]));
            let mut j: usize = 1;
            while j < w.len()
                invariant
                    1 <= j <= w.len(),
                    c@ == seq![upper_first_of(w@[0])] + w@.subrange(1, j as int),
                decreases w.len() - j,
            {
                c.push(w[j]);
                j += 1;
                assert(c@ =~= seq![upper_first_of(w@[0])] + w@.subrange(1, j as int));
            }
            assert(w@.subrange(1, j as int) =~= w@.skip(1));
        }
        assert(c@ == capitalized(w@));
        let ghost before = views(caps@);
        caps.push(c);
        assert(views(caps@) =~= before.push(c@));
        assert(views(ws@)[i as int] == w@);
        i += 1;
        assert(words(v@).take(i as int).map_values(|w: Seq<char>| capitalized(w)) =~= before.push(
            capitalized(w@),
        ));
    }
    assert(words(v@).take(i as int) =~= words(v@));
    let out = crate::chars::join_with(&caps, caps.len(), ' ');
    assert(views(caps@).take(caps.len() as int) =~= views(caps@));
    crate::chars::string_from_chars(&out)
}

} // verus!
