//! Turning clipboard bytes into xenstore-safe pieces of text.
use vstd::prelude::*;
use vstd::utf8::{decode_utf8, valid_utf8};
use crate::text::{utf8_len, utf8_size, char_utf8_len};

verus! {

/// What `String::from_utf8_lossy` makes of a byte string.
pub uninterp spec fn utf8_lossy(bytes: Seq<u8>) -> Seq<char>;

/// `String::from_utf8_lossy`: the text of the bytes, with U+FFFD in place of each invalid
/// sequence.  The contract states what valid UTF-8 decodes to; what replaces invalid
/// sequences is left to the name `utf8_lossy`.
#[verifier::external_body]
pub(crate) fn from_utf8_lossy(bytes: &[u8]) -> (s: String)
    ensures
        s@ == utf8_lossy(bytes@),
        valid_utf8(bytes@) ==> s@ == decode_utf8(bytes@),
{
    String::from_utf8_lossy(bytes).into_owned()
}

/// The text without its trailing NUL characters (`trim_end_matches('\0')`).
pub open spec fn strip_nuls(s: Seq<char>) -> Seq<char>
    decreases s.len(),
{
    if s.len() > 0 && s.last() == '\0' {
        strip_nuls(s.drop_last())
    } else {
        s
    }
}

/// Position of the first line feed, if any.
pub open spec fn first_lf(s: Seq<char>) -> Option<int>
    decreases s.len(),
{
    if s.len() == 0 {
        None
    } else if s[0] == '\n' {
        Some(0)
    } else {
        match first_lf(s.drop_first()) {
            Some(i) => Some(i + 1),
            None => None,
        }
    }
}

/// A line without the carriage return that ends it.
pub open spec fn strip_cr(l: Seq<char>) -> Seq<char> {
    if l.len() > 0 && l.last() == '\r' {
        l.drop_last()
    } else {
        l
    }
}

/// `str::lines`: the text cut at each `\n` (a `\r` just before it is dropped too); a
/// last line needs no line feed, and an empty text has no line.
pub open spec fn lines_of(s: Seq<char>) -> Seq<Seq<char>>
    decreases s.len(),
{
    if s.len() == 0 {
        Seq::empty()
    } else {
        match first_lf(s) {
            Some(i) => if 0 <= i < s.len() {
                seq![strip_cr(s.take(i))] + lines_of(s.skip(i + 1))
            } else {
                Seq::empty()
            },
            None => seq![s],
        }
    }
}

/// How many leading characters fit in `budget` bytes of UTF-8.
pub open spec fn fit_len(l: Seq<char>, budget: nat) -> nat
    decreases l.len(),
{
    if l.len() == 0 {
        0
    } else if utf8_len(l[0]) <= budget {
        1 + fit_len(l.drop_first(), (budget - utf8_len(l[0])) as nat)
    } else {
        0
    }
}

/// Longest byte size of a reported piece.
pub const CHUNK_BYTES: usize = 1000;

/// A line cut into pieces of at most 1000 bytes of UTF-8, each as long as possible.
pub open spec fn chunks_of(l: Seq<char>) -> Seq<Seq<char>>
    decreases l.len(),
{
    let k = fit_len(l, 1000);
    if l.len() == 0 || k == 0 || k > l.len() {
        Seq::empty()
    } else {
        seq![l.take(k as int)] + chunks_of(l.skip(k as int))
    }
}

/// Characters kept in a reported value: those from U+0020 up to, not including, U+00FF.
pub open spec fn printable(c: char) -> bool {
    ' ' <= c && (c as u32) < 0xff
}

/// The printable characters of a text, in order.
pub open spec fn keep_printable(s: Seq<char>) -> Seq<char>
    decreases s.len(),
{
    if s.len() == 0 {
        Seq::empty()
    } else if printable(s.last()) {
        keep_printable(s.drop_last()).push(s.last())
    } else {
        keep_printable(s.drop_last())
    }
}

/// The pieces of text that clipboard bytes are reported as: each line of the text (NULs
/// at its end dropped) cut into pieces of at most 1000 bytes, with only printable
/// characters kept.
pub open spec fn report_pieces(bytes: Seq<u8>) -> Seq<Seq<char>> {
    pieces_of_lines(lines_of(strip_nuls(utf8_lossy(bytes))))
}

pub open spec fn pieces_of_lines(ls: Seq<Seq<char>>) -> Seq<Seq<char>>
    decreases ls.len(),
{
    if ls.len() == 0 {
        Seq::empty()
    } else {
        pieces_of_lines(ls.drop_last()) + chunks_of(ls.last()).map_values(
            |c: Seq<char>| keep_printable(c),
        )
    }
}

proof fn lemma_fit_len_bound(l: Seq<char>, budget: nat)
    ensures
        fit_len(l, budget) <= l.len(),
        l.len() > 0 && budget >= 4 ==> fit_len(l, budget) >= 1,
    decreases l.len(),
{
    if l.len() > 0 {
        lemma_fit_len_bound(l.drop_first(), (budget - utf8_len(l[0])) as nat);
    }
}

/// The text without trailing NULs.
pub fn strip_nul_chars(s: &Vec<char>) -> (r: Vec<char>)
    ensures
        r@ == strip_nuls(s@),
{
    let mut j: usize = s.len();
    assert(s@.take(s.len() as int) =~= s@);
    while j > 0 && s[j - 1] == '\0'
        invariant
            j <= s.len(),
            strip_nuls(s@) == strip_nuls(s@.take(j as int)),
        decreases j,
    {
        assert(s@.take(j as int).drop_last() =~= s@.take(j - 1));
        j = j - 1;
    }
    let mut r: Vec<char> = Vec::new();
    let mut k: usize = 0;
    while k < j
        invariant
            k <= j <= s.len(),
            r@ == s@.take(k as int),
        decreases j - k,
    {
        r.push(s[k]);
        assert(r@ =~= s@.take(k + 1));
        k = k + 1;
    }
    r
}


/// The abstract values of a list of character vectors.
pub open spec fn nested_view(v: Seq<Vec<char>>) -> Seq<Seq<char>> {
    v.map_values(|x: Vec<char>| x@)
}

fn push_nested(out: &mut Vec<Vec<char>>, x: Vec<char>)
    ensures
        nested_view(final(out)@) == nested_view(old(out)@).push(x@),
{
    let ghost xv = x@;
    out.push(x);
    assert(nested_view(out@) =~= nested_view(old(out)@).push(xv));
}

/// The characters `s[from..to]`.
pub fn sub_chars(s: &Vec<char>, from: usize, to: usize) -> (r: Vec<char>)
    requires
        from <= to <= s.len(),
    ensures
        r@ == s@.subrange(from as int, to as int),
{
    let mut r: Vec<char> = Vec::new();
    let mut k: usize = from;
    while k < to
        invariant
            from <= k <= to <= s.len(),
            r@ == s@.subrange(from as int, k as int),
        decreases to - k,
    {
        r.push(s[k]);
        assert(r@ =~= s@.subrange(from as int, k + 1));
        k = k + 1;
    }
    r
}

proof fn lemma_first_lf_step(s: Seq<char>, k: int)
    requires
        0 <= k < s.len(),
        s[k] != '\n',
    ensures
        first_lf(s.skip(k)) == match first_lf(s.skip(k + 1)) {
            Some(i) => Some(i + 1),
            None => None::<int>,
        },
{
    assert(s.skip(k).drop_first() =~= s.skip(k + 1));
}

proof fn lemma_first_lf_bound(s: Seq<char>)
    ensures
        match first_lf(s) {
            Some(i) => 0 <= i < s.len() && s[i] == '\n',
            None => true,
        },
    decreases s.len(),
{
    if s.len() > 0 && s[0] != '\n' {
        lemma_first_lf_bound(s.drop_first());
    }
}

/// Position of the first line feed at or after `from`.
fn find_lf(s: &Vec<char>, from: usize) -> (r: Option<usize>)
    requires
        from <= s.len(),
    ensures
        match r {
            Some(i) => from <= i < s.len() && first_lf(s@.skip(from as int)) == Some(i - from),
            None => first_lf(s@.skip(from as int)) is None,
        },
{
    let mut k: usize = from;
    while k < s.len()
        invariant
            from <= k <= s.len(),
            first_lf(s@.skip(from as int)) == match first_lf(s@.skip(k as int)) {
                Some(i) => Some(i + (k - from)),
                None => None::<int>,
            },
        decreases s.len() - k,
    {
        if s[k] == '\n' {
            assert(s@.skip(k as int)[0] == '\n');
            return Some(k);
        }
        proof {
            lemma_first_lf_step(s@, k as int);
        }
        k = k + 1;
    }
    assert(s@.skip(k as int).len() == 0);
    None
}

/// `str::lines` over characters.
pub fn split_lines(s: &Vec<char>) -> (r: Vec<Vec<char>>)
    ensures
        nested_view(r@) == lines_of(s@),
{
    let mut out: Vec<Vec<char>> = Vec::new();
    let mut p: usize = 0;
    assert(s@.skip(0) =~= s@);
    assert(nested_view(out@) + lines_of(s@) =~= lines_of(s@));
    while p < s.len()
        invariant
            p <= s.len(),
            lines_of(s@) == nested_view(out@) + lines_of(s@.skip(p as int)),
        decreases s.len() - p,
    {
        let ghost rest = s@.skip(p as int);
        match find_lf(s, p) {
            Some(i) => {
                let mut line = sub_chars(s, p, i);
                assert(rest.take(i - p) =~= line@);
                if line.len() > 0 && line[line.len() - 1] == '\r' {
                    line.pop();
                }
                let ghost lv = line@;
                assert(rest.skip(i - p + 1) =~= s@.skip(i + 1));
                push_nested(&mut out, line);
                assert(lines_of(rest) == seq![lv] + lines_of(s@.skip(i + 1)));
                assert(lines_of(s@) =~= nested_view(out@) + lines_of(s@.skip(i + 1)));
                p = i + 1;
            },
            None => {
                let line = sub_chars(s, p, s.len());
                assert(line@ =~= rest);
                assert(lines_of(rest) == seq![rest]);
                push_nested(&mut out, line);
                assert(s@.skip(s.len() as int) =~= Seq::<char>::empty());
                assert(lines_of(s@) =~= nested_view(out@) + lines_of(s@.skip(s.len() as int)));
                p = s.len();
            },
        }
    }
    assert(s@.skip(p as int) =~= Seq::<char>::empty());
    assert(lines_of(s@) =~= nested_view(out@));
    out
}

/// How many characters from `from` on fit in 1000 bytes of UTF-8.
fn fit_count(l: &Vec<char>, from: usize) -> (k: usize)
    requires
        from <= l.len(),
    ensures
        k == fit_len(l@.skip(from as int), 1000),
        from + k <= l.len(),
{
    let mut i: usize = from;
    let mut budget: usize = CHUNK_BYTES;
    proof {
        lemma_fit_len_bound(l@.skip(from as int), 1000);
    }
    while i < l.len() && char_utf8_len(l[i]) <= budget
        invariant
            from <= i <= l.len(),
            budget <= 1000,
            fit_len(l@.skip(from as int), 1000) == (i - from) + fit_len(l@.skip(i as int), budget as nat),
        decreases l.len() - i,
    {
        let n = char_utf8_len(l[i]);
        assert(l@.skip(i as int)[0] == l@[i as int]);
        assert(l@.skip(i as int).drop_first() =~= l@.skip(i + 1));
        budget = budget - n;
        i = i + 1;
    }
    proof {
        if i == l.len() {
            assert(l@.skip(i as int).len() == 0);
        } else {
            assert(l@.skip(i as int)[0] == l@[i as int]);
        }
    }
    i - from
}

/// A line cut into pieces of at most 1000 bytes of UTF-8.
pub fn split_chunks(l: &Vec<char>) -> (r: Vec<Vec<char>>)
    ensures
        nested_view(r@) == chunks_of(l@),
{
    let mut out: Vec<Vec<char>> = Vec::new();
    let mut p: usize = 0;
    assert(l@.skip(0) =~= l@);
    assert(nested_view(out@) + chunks_of(l@) =~= chunks_of(l@));
    while p < l.len()
        invariant
            p <= l.len(),
            chunks_of(l@) == nested_view(out@) + chunks_of(l@.skip(p as int)),
        decreases l.len() - p,
    {
        let ghost rest = l@.skip(p as int);
        let k = fit_count(l, p);
        proof {
            lemma_fit_len_bound(rest, 1000);
        }
        let piece = sub_chars(l, p, p + k);
        assert(piece@ =~= rest.take(k as int));
        assert(rest.skip(k as int) =~= l@.skip((p + k) as int));
        push_nested(&mut out, piece);
        assert(chunks_of(l@) =~= nested_view(out@) + chunks_of(l@.skip((p + k) as int)));
        p = p + k;
    }
    assert(l@.skip(p as int) =~= Seq::<char>::empty());
    assert(chunks_of(l@) =~= nested_view(out@));
    out
}

/// The printable characters of a text, as a string.
pub fn printable_string(s: &Vec<char>) -> (r: String)
    ensures
        r@ == keep_printable(s@),
{
    let mut r = String::new();
    let mut i: usize = 0;
    while i < s.len()
        invariant
            i <= s.len(),
            r@ == keep_printable(s@.take(i as int)),
        decreases s.len() - i,
    {
        let c = s[i];
        assert(s@.take(i + 1).drop_last() =~= s@.take(i as int));
        if ' ' <= c && (c as u32) < 0xff {
            r.push(c);
        }
        i = i + 1;
    }
    assert(s@.take(s.len() as int) =~= s@);
    r
}

/// The pieces that clipboard text is reported as, in order: its lines (trailing NULs
/// dropped), each cut into pieces of at most 1000 bytes of UTF-8, each piece keeping only
/// its characters from U+0020 to U+00FE.
pub fn text_pieces(text: &str) -> (r: Vec<String>)
    ensures
        r@.map_values(|x: String| x@) == pieces_of_lines(lines_of(strip_nuls(text@))),
{
    let cs = crate::text::chars_of(text);
    let stripped = strip_nul_chars(&cs);
    let lines = split_lines(&stripped);
    let ghost ls = lines_of(strip_nuls(text@));
    assert(nested_view(lines@) == ls);
    let mut out: Vec<String> = Vec::new();
    let mut i: usize = 0;
    assert(out@.map_values(|x: String| x@) =~= pieces_of_lines(ls.take(0)));
    while i < lines.len()
        invariant
            i <= lines.len(),
            nested_view(lines@) == ls,
            out@.map_values(|x: String| x@) == pieces_of_lines(ls.take(i as int)),
        decreases lines.len() - i,
    {
        assert(ls[i as int] == lines@[i as int]@);
        let chunks = split_chunks(&lines[i]);
        let ghost base = out@.map_values(|x: String| x@);
        let ghost cv = chunks_of(ls[i as int]).map_values(|c: Seq<char>| keep_printable(c));
        let mut j: usize = 0;
        assert(base =~= base + cv.take(0));
        while j < chunks.len()
            invariant
                i < lines.len(),
                j <= chunks.len(),
                nested_view(lines@) == ls,
                nested_view(chunks@) == chunks_of(ls[i as int]),
                cv == chunks_of(ls[i as int]).map_values(|c: Seq<char>| keep_printable(c)),
                out@.map_values(|x: String| x@) == base + cv.take(j as int),
            decreases chunks.len() - j,
        {
            assert(chunks@[j as int]@ == chunks_of(ls[i as int])[j as int]);
            let piece = printable_string(&chunks[j]);
            let ghost pv = piece@;
            let ghost before = out@.map_values(|x: String| x@);
            assert(cv[j as int] == pv);
            out.push(piece);
            assert(out@.map_values(|x: String| x@) =~= before.push(pv));
            assert(cv.take(j + 1) =~= cv.take(j as int).push(pv));
            assert(out@.map_values(|x: String| x@) =~= base + cv.take(j + 1));
            j = j + 1;
        }
        assert(cv.take(chunks.len() as int) =~= cv);
        assert(ls.take(i + 1).drop_last() =~= ls.take(i as int));
        assert(ls.take(i + 1).last() == ls[i as int]);
        i = i + 1;
    }
    assert(ls.take(lines.len() as int) =~= ls);
    out
}

/// The pieces of text that clipboard bytes are reported as, in order: the bytes are read
/// as UTF-8, invalid sequences replaced.
pub fn report_pieces_of(bytes: &[u8]) -> (r: Vec<String>)
    ensures
        r@.map_values(|x: String| x@) == report_pieces(bytes@),
{
    let text = from_utf8_lossy(bytes);
    text_pieces(text.as_str())
}

/// The texts one after the other.
pub open spec fn concat_all(ss: Seq<Seq<char>>) -> Seq<char>
    decreases ss.len(),
{
    if ss.len() == 0 {
        Seq::empty()
    } else {
        ss[0] + concat_all(ss.drop_first())
    }
}

proof fn lemma_fit_len_budget(l: Seq<char>, budget: nat)
    ensures
        fit_len(l, budget) <= budget,
    decreases l.len(),
{
    if l.len() > 0 && utf8_len(l[0]) <= budget {
        lemma_fit_len_budget(l.drop_first(), (budget - utf8_len(l[0])) as nat);
    }
}

proof fn lemma_keep_printable(s: Seq<char>)
    ensures
        keep_printable(s).len() <= s.len(),
        forall|i: int| 0 <= i < keep_printable(s).len() ==> printable(#[trigger] keep_printable(s)[i]),
    decreases s.len(),
{
    if s.len() > 0 {
        lemma_keep_printable(s.drop_last());
    }
}

/// Cutting a line into pieces loses nothing: the pieces, one after the other, are the
/// line.
pub proof fn lemma_chunks_lose_nothing(l: Seq<char>)
    ensures
        concat_all(chunks_of(l)) == l,
    decreases l.len(),
{
    lemma_fit_len_bound(l, 1000);
    if l.len() > 0 {
        let k = fit_len(l, 1000);
        lemma_chunks_lose_nothing(l.skip(k as int));
        let cs = chunks_of(l);
        assert(cs.drop_first() =~= chunks_of(l.skip(k as int)));
        assert(l.take(k as int) + l.skip(k as int) =~= l);
    } else {
        assert(chunks_of(l) =~= Seq::<Seq<char>>::empty());
        assert(l =~= Seq::<char>::empty());
    }
}

proof fn lemma_chunks_short(l: Seq<char>)
    ensures
        forall|i: int| 0 <= i < chunks_of(l).len() ==> (#[trigger] chunks_of(l)[i]).len() <= 1000,
    decreases l.len(),
{
    lemma_fit_len_bound(l, 1000);
    lemma_fit_len_budget(l, 1000);
    if l.len() > 0 {
        let k = fit_len(l, 1000);
        lemma_chunks_short(l.skip(k as int));
        assert forall|i: int| 0 <= i < chunks_of(l).len() implies (#[trigger] chunks_of(l)[i]).len() <= 1000 by {
            if i > 0 {
                assert(chunks_of(l)[i] == chunks_of(l.skip(k as int))[i - 1]);
            }
        }
    }
}

/// Every piece of a report holds at most 1000 characters, each of them from U+0020 to
/// U+00FE.
pub proof fn lemma_report_pieces_fit(bytes: Seq<u8>)
    ensures
        forall|i: int| 0 <= i < report_pieces(bytes).len() ==> {
            &&& (#[trigger] report_pieces(bytes)[i]).len() <= 1000
            &&& forall|j: int| 0 <= j < report_pieces(bytes)[i].len() ==> printable(
                #[trigger] report_pieces(bytes)[i][j],
            )
        },
{
    lemma_pieces_of_lines_fit(lines_of(strip_nuls(utf8_lossy(bytes))));
}

proof fn lemma_pieces_of_lines_fit(ls: Seq<Seq<char>>)
    ensures
        forall|i: int| 0 <= i < pieces_of_lines(ls).len() ==> {
            &&& (#[trigger] pieces_of_lines(ls)[i]).len() <= 1000
            &&& forall|j: int| 0 <= j < pieces_of_lines(ls)[i].len() ==> printable(
                #[trigger] pieces_of_lines(ls)[i][j],
            )
        },
    decreases ls.len(),
{
    if ls.len() > 0 {
        lemma_pieces_of_lines_fit(ls.drop_last());
        let head = pieces_of_lines(ls.drop_last());
        let tail = chunks_of(ls.last()).map_values(|c: Seq<char>| keep_printable(c));
        lemma_chunks_short(ls.last());
        assert forall|i: int| 0 <= i < pieces_of_lines(ls).len() implies {
            &&& (#[trigger] pieces_of_lines(ls)[i]).len() <= 1000
            &&& forall|j: int| 0 <= j < pieces_of_lines(ls)[i].len() ==> printable(
                #[trigger] pieces_of_lines(ls)[i][j],
            )
        } by {
            if i < head.len() {
                assert(pieces_of_lines(ls)[i] == head[i]);
            } else {
                let c = chunks_of(ls.last())[i - head.len()];
                assert(pieces_of_lines(ls)[i] == tail[i - head.len()]);
                assert(tail[i - head.len()] == keep_printable(c));
                lemma_keep_printable(c);
            }
        }
    }
}

} // verus!
