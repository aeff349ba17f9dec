//! Application identifiers: dotted, reverse-domain style names such as
//! `fun.kason.deftapp`.
use vstd::prelude::*;

verus! {

/// An ASCII letter or an underscore: what a segment starts with.
pub open spec fn is_ident_start(c: char) -> bool {
    ('a' <= c && c <= 'z') || ('A' <= c && c <= 'Z') || c == '_'
}

/// An ASCII letter, digit or underscore: what a segment continues with.
pub open spec fn is_word_char(c: char) -> bool {
    is_ident_start(c) || ('0' <= c && c <= '9')
}

/// One segment: a start character followed by word characters.
pub open spec fn is_segment(s: Seq<char>) -> bool {
    &&& s.len() > 0
    &&& is_ident_start(s[0])
    &&& forall|i: int| 1 <= i < s.len() ==> is_word_char(#[trigger] s[i])
}

/// Position `j` of `s` holds a word character, or a dot that is followed by
/// the start of a new segment.
pub open spec fn dotted_at(s: Seq<char>, j: int) -> bool {
    &&& (is_word_char(s[j]) || s[j] == '.')
    &&& (s[j] == '.' ==> j + 1 < s.len() && is_ident_start(s[j + 1]))
}

/// One or more segments separated by single dots.
pub open spec fn is_dotted_name(s: Seq<char>) -> bool {
    &&& s.len() > 0
    &&& is_ident_start(s[0])
    &&& forall|j: int| 0 <= j < s.len() ==> #[trigger] dotted_at(s, j)
}

/// A valid application identifier: two or more segments separated by dots.
pub open spec fn is_app_id(s: Seq<char>) -> bool {
    is_dotted_name(s) && exists|j: int| 0 <= j < s.len() && s[j] == '.'
}

/// The segments joined with a dot between each two.
pub open spec fn join_dots(segs: Seq<Seq<char>>) -> Seq<char>
    decreases segs.len(),
{
    if segs.len() <= 1 {
        if segs.len() == 0 { Seq::empty() } else { segs[0] }
    } else {
        join_dots(segs.drop_last()) + seq!['.'] + segs.last()
    }
}

fn is_start_char(c: char) -> (r: bool)
    ensures
        r == is_ident_start(c),
{
    ('a' <= c && c <= 'z') || ('A' <= c && c <= 'Z') || c == '_'
}

fn is_word(c: char) -> (r: bool)
    ensures
        r == is_word_char(c),
{
    is_start_char(c) || ('0' <= c && c <= '9')
}

/// Whether `id` is a valid application identifier.
pub fn is_valid_appid(id: &str) -> (r: bool)
    ensures
        r == is_app_id(id@),
{
    let n = id.unicode_len();
    if n == 0 {
        return false;
    }
    if !is_start_char(id.get_char(0)) {
        return false;
    }
    let mut seen_dot = false;
    let mut i: usize = 0;
    while i < n
        invariant
            n == id@.len(),
            0 <= i <= n,
            is_ident_start(id@[0]),
            forall|j: int| 0 <= j < i ==> #[trigger] dotted_at(id@, j),
            seen_dot == exists|j: int| 0 <= j < i && id@[j] == '.',
        decreases n - i,
    {
        let c = id.get_char(i);
        if c == '.' {
            if i + 1 >= n || !is_start_char(id.get_char(i + 1)) {
                assert(!dotted_at(id@, i as int));
                return false;
            }
            seen_dot = true;
        } else if !is_word(c) {
            assert(!dotted_at(id@, i as int));
            return false;
        }
        assert(dotted_at(id@, i as int));
        i += 1;
    }
    seen_dot
}

/// Segments that are each well formed, joined with dots, form a dotted name.
pub proof fn lemma_join_dotted_name(segs: Seq<Seq<char>>)
    requires
        segs.len() >= 1,
        forall|k: int| 0 <= k < segs.len() ==> is_segment(#[trigger] segs[k]),
    ensures
        is_dotted_name(join_dots(segs)),
    decreases segs.len(),
{
    if segs.len() == 1 {
        let s = segs[0];
        assert(is_segment(s));
        assert forall|j: int| 0 <= j < s.len() implies #[trigger] dotted_at(s, j) by {
            if j > 0 {
                assert(is_word_char(s[j]));
            }
        }
    } else {
        let front = segs.drop_last();
        assert forall|k: int| 0 <= k < front.len() implies is_segment(#[trigger] front[k]) by {
            assert(front[k] == segs[k]);
        }
        lemma_join_dotted_name(front);
        let a = join_dots(front);
        let b = segs.last();
        assert(is_segment(segs[segs.len() - 1]));
        let s = a + seq!['.'] + b;
        assert(join_dots(segs) == s);
        assert forall|j: int| 0 <= j < s.len() implies #[trigger] dotted_at(s, j) by {
            if j < a.len() {
                assert(s[j] == a[j]);
                assert(dotted_at(a, j));
                if a[j] == '.' {
                    if j + 1 < a.len() {
                        assert(s[j + 1] == a[j + 1]);
                    } else {
                        assert(false);
                    }
                }
            } else if j == a.len() {
                assert(s[j] == '.');
                assert(s[j + 1] == b[0]);
            } else {
                assert(s[j] == b[j - a.len() - 1]);
                assert(is_word_char(b[j - a.len() - 1]));
            }
        }
        assert(s[0] == a[0]);
    }
}

/// Two or more well-formed segments joined with dots form a valid
/// application identifier.
pub proof fn lemma_joined_segments_valid(segs: Seq<Seq<char>>)
    requires
        segs.len() >= 2,
        forall|k: int| 0 <= k < segs.len() ==> is_segment(#[trigger] segs[k]),
    ensures
        is_app_id(join_dots(segs)),
{
    lemma_join_dotted_name(segs);
    let a = join_dots(segs.drop_last());
    let s = join_dots(segs);
    assert(s == a + seq!['.'] + segs.last());
    assert(s[a.len() as int] == '.');
}

proof fn lemma_last_dot_exists(s: Seq<char>, i: int)
    requires
        0 <= i < s.len(),
        s[i] == '.',
    ensures
        exists|k: int| i <= k < s.len() && s[k] == '.' && forall|j: int| k < j < s.len() ==> s[j] != '.',
    decreases s.len() - i,
{
    if exists|j: int| i < j < s.len() && s[j] == '.' {
        let j = choose|j: int| i < j < s.len() && s[j] == '.';
        lemma_last_dot_exists(s, j);
    }
}

proof fn lemma_split_segments(s: Seq<char>) -> (segs: Seq<Seq<char>>)
    requires
        is_dotted_name(s),
    ensures
        segs.len() >= 1,
        forall|k: int| 0 <= k < segs.len() ==> is_segment(#[trigger] segs[k]),
        join_dots(segs) == s,
        (exists|j: int| 0 <= j < s.len() && s[j] == '.') ==> segs.len() >= 2,
    decreases s.len(),
{
    if exists|j: int| 0 <= j < s.len() && s[j] == '.' {
        let j0 = choose|j: int| 0 <= j < s.len() && s[j] == '.';
        lemma_last_dot_exists(s, j0);
        let k = choose|k: int|
            j0 <= k < s.len() && s[k] == '.' && forall|j: int| k < j < s.len() ==> s[j] != '.';
        assert(dotted_at(s, k));
        assert(dotted_at(s, 0));
        let a = s.subrange(0, k);
        let b = s.subrange(k + 1, s.len() as int);
        assert forall|j: int| 0 <= j < a.len() implies #[trigger] dotted_at(a, j) by {
            assert(a[j] == s[j]);
            assert(dotted_at(s, j));
            if s[j] == '.' {
                assert(is_ident_start(s[j + 1]));
                assert(j + 1 != k);
                assert(a[j + 1] == s[j + 1]);
            }
        }
        let front = lemma_split_segments(a);
        assert forall|i: int| 1 <= i < b.len() implies is_word_char(#[trigger] b[i]) by {
            assert(b[i] == s[k + 1 + i]);
            assert(dotted_at(s, k + 1 + i));
        }
        assert(is_segment(b));
        let segs = front.push(b);
        assert(segs.drop_last() =~= front);
        assert forall|m: int| 0 <= m < segs.len() implies is_segment(#[trigger] segs[m]) by {
            if m < front.len() {
                assert(segs[m] == front[m]);
            }
        }
        assert(a + seq!['.'] + b =~= s);
        segs
    } else {
        assert forall|i: int| 1 <= i < s.len() implies is_word_char(#[trigger] s[i]) by {
            assert(dotted_at(s, i));
        }
        let segs = seq![s];
        assert(segs[0] == s);
        segs
    }
}

/// Every valid application identifier is two or more well-formed segments
/// joined with dots.
pub proof fn lemma_valid_is_joined_segments(s: Seq<char>)
    requires
        is_app_id(s),
    ensures
        exists|segs: Seq<Seq<char>>|
            segs.len() >= 2 && (forall|k: int| 0 <= k < segs.len() ==> is_segment(#[trigger] segs[k]))
                && join_dots(segs) == s,
{
    let segs = lemma_split_segments(s);
    assert(segs.len() >= 2 && (forall|k: int| 0 <= k < segs.len() ==> is_segment(#[trigger] segs[k]))
        && join_dots(segs) == s);
}

} // verus!
