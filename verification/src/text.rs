use vstd::prelude::*;

verus! {

/// A character counts as whitespace exactly when Rust's `char::is_whitespace`
/// does: the characters with the Unicode `White_Space` property.
pub open spec fn is_space(c: char) -> bool {
    ||| c == ' '
    ||| c == '\u{0009}'
    ||| c == '\u{000A}'
    ||| c == '\u{000B}'
    ||| c == '\u{000C}'
    ||| c == '\u{000D}'
    ||| c == '\u{0085}'
    ||| c == '\u{00A0}'
    ||| c == '\u{1680}'
    ||| c == '\u{2000}'
    ||| c == '\u{2001}'
    ||| c == '\u{2002}'
    ||| c == '\u{2003}'
    ||| c == '\u{2004}'
    ||| c == '\u{2005}'
    ||| c == '\u{2006}'
    ||| c == '\u{2007}'
    ||| c == '\u{2008}'
    ||| c == '\u{2009}'
    ||| c == '\u{200A}'
    ||| c == '\u{2028}'
    ||| c == '\u{2029}'
    ||| c == '\u{202F}'
    ||| c == '\u{205F}'
    ||| c == '\u{3000}'
}

fn is_space_char(c: char) -> (r: bool)
    ensures
        r == is_space(c),
{
    c == ' ' || c == '\u{0009}' || c == '\u{000A}' || c == '\u{000B}' || c == '\u{000C}'
        || c == '\u{000D}' || c == '\u{0085}' || c == '\u{00A0}' || c == '\u{1680}'
        || c == '\u{2000}' || c == '\u{2001}' || c == '\u{2002}' || c == '\u{2003}'
        || c == '\u{2004}' || c == '\u{2005}' || c == '\u{2006}' || c == '\u{2007}'
        || c == '\u{2008}' || c == '\u{2009}' || c == '\u{200A}' || c == '\u{2028}'
        || c == '\u{2029}' || c == '\u{202F}' || c == '\u{205F}' || c == '\u{3000}'
}

/// The sequence with the leading whitespace removed.
pub open spec fn trim_start(s: Seq<char>) -> Seq<char>
    decreases s.len(),
{
    if s.len() > 0 && is_space(s[0]) {
        trim_start(s.drop_first())
    } else {
        s
    }
}

/// The sequence with the trailing whitespace removed.
pub open spec fn trim_end(s: Seq<char>) -> Seq<char>
    decreases s.len(),
{
    if s.len() > 0 && is_space(s.last()) {
        trim_end(s.drop_last())
    } else {
        s
    }
}

/// The sequence with both leading and trailing whitespace removed.
pub open spec fn trimmed(s: Seq<char>) -> Seq<char> {
    trim_end(trim_start(s))
}

proof fn lemma_trim_start_at(s: Seq<char>, i: int)
    requires
        0 <= i <= s.len(),
        forall|j: int| 0 <= j < i ==> is_space(s[j]),
        i < s.len() ==> !is_space(s[i]),
    ensures
        trim_start(s) == s.subrange(i, s.len() as int),
    decreases i,
{
    if i == 0 {
        assert(trim_start(s) == s);
        assert(s.subrange(0, s.len() as int) =~= s);
    } else {
        lemma_trim_start_at(s.drop_first(), i - 1);
        assert(s.drop_first().subrange(i - 1, s.drop_first().len() as int) =~= s.subrange(
            i,
            s.len() as int,
        ));
    }
}

proof fn lemma_trim_end_at(s: Seq<char>, k: int)
    requires
        0 <= k <= s.len(),
        forall|j: int| k <= j < s.len() ==> is_space(s[j]),
        k > 0 ==> !is_space(s[k - 1]),
    ensures
        trim_end(s) == s.subrange(0, k),
    decreases s.len() - k,
{
    if k == s.len() {
        assert(trim_end(s) == s);
        assert(s.subrange(0, k) =~= s);
    } else {
        assert(is_space(s.last()));
        lemma_trim_end_at(s.drop_last(), k);
        assert(s.drop_last().subrange(0, k) =~= s.subrange(0, k));
    }
}

proof fn lemma_trim_start_no_leading_space(s: Seq<char>)
    ensures
        trim_start(s).len() > 0 ==> !is_space(trim_start(s)[0]),
    decreases s.len(),
{
    if s.len() > 0 && is_space(s[0]) {
        lemma_trim_start_no_leading_space(s.drop_first());
    }
}

proof fn lemma_trim_end_no_trailing_space(s: Seq<char>)
    ensures
        trim_end(s).len() > 0 ==> !is_space(trim_end(s).last()),
    decreases s.len(),
{
    if s.len() > 0 && is_space(s.last()) {
        lemma_trim_end_no_trailing_space(s.drop_last());
    }
}

proof fn lemma_trim_end_keeps_first(s: Seq<char>)
    ensures
        trim_end(s).len() > 0 ==> trim_end(s)[0] == s[0],
    decreases s.len(),
{
    if s.len() > 0 && is_space(s.last()) {
        lemma_trim_end_keeps_first(s.drop_last());
    }
}

/// Trimming removes all the edge whitespace: a trimmed text neither starts
/// nor ends with a whitespace character.
pub proof fn lemma_trimmed_no_edge_space(s: Seq<char>)
    ensures
        trimmed(s).len() > 0 ==> !is_space(trimmed(s)[0]),
        trimmed(s).len() > 0 ==> !is_space(trimmed(s).last()),
{
    lemma_trim_start_no_leading_space(s);
    lemma_trim_end_no_trailing_space(trim_start(s));
    lemma_trim_end_keeps_first(trim_start(s));
}

/// Remove leading and trailing whitespace from a string, as `str::trim` does.
pub fn trim_str<'a>(s: &'a str) -> (r: &'a str)
    ensures
        r@ == trimmed(s@),
{
    let n = s.unicode_len();
    let mut start: usize = 0;
    while start < n
        invariant
            0 <= start <= n,
            n == s@.len(),
            forall|j: int| 0 <= j < start ==> is_space(s@[j]),
        ensures
            0 <= start <= n,
            forall|j: int| 0 <= j < start ==> is_space(s@[j]),
            start < n ==> !is_space(s@[start as int]),
        decreases n - start,
    {
        if is_space_char(s.get_char(start)) {
            start += 1;
        } else {
            break;
        }
    }
    let mut end: usize = n;
    while end > start
        invariant
            start <= end <= n,
            n == s@.len(),
            forall|j: int| end <= j < n ==> is_space(s@[j]),
        ensures
            start <= end <= n,
            forall|j: int| end <= j < n ==> is_space(s@[j]),
            end > start ==> !is_space(s@[end - 1]),
        decreases end,
    {
        if is_space_char(s.get_char(end - 1)) {
            end -= 1;
        } else {
            break;
        }
    }
    proof {
        lemma_trim_start_at(s@, start as int);
        let tail = s@.subrange(start as int, n as int);
        lemma_trim_end_at(tail, end - start);
        assert(tail.subrange(0, end - start) =~= s@.subrange(start as int, end as int));
    }
    s.substring_char(start, end)
}

/// The extracted text of a sequence of text pieces: each piece is trimmed of
/// leading and trailing whitespace, whitespace-only pieces are dropped, and
/// the rest are joined with a single space.
pub open spec fn joined(parts: Seq<Seq<char>>) -> Seq<char>
    decreases parts.len(),
{
    if parts.len() == 0 {
        Seq::empty()
    } else {
        let before = joined(parts.drop_last());
        let piece = trimmed(parts.last());
        if piece.len() == 0 {
            before
        } else if before.len() == 0 {
            piece
        } else {
            before + seq![' '] + piece
        }
    }
}

/// A joined text is itself trimmed: whatever the pieces were, it neither
/// starts nor ends with a whitespace character.
pub proof fn lemma_joined_no_edge_space(parts: Seq<Seq<char>>)
    ensures
        joined(parts).len() > 0 ==> !is_space(joined(parts)[0]),
        joined(parts).len() > 0 ==> !is_space(joined(parts).last()),
    decreases parts.len(),
{
    if parts.len() > 0 {
        lemma_joined_no_edge_space(parts.drop_last());
        lemma_trimmed_no_edge_space(parts.last());
    }
}

/// Two text pieces that are not whitespace-only are joined with exactly one
/// space between their trimmed texts.
pub proof fn lemma_joined_pair(a: Seq<char>, b: Seq<char>)
    requires
        trimmed(a).len() > 0,
        trimmed(b).len() > 0,
    ensures
        joined(seq![a, b]) == trimmed(a) + seq![' '] + trimmed(b),
{
    let pair = seq![a, b];
    assert(pair.last() == b);
    assert(pair.drop_last() =~= seq![a]);
    assert(seq![a].last() == a);
    assert(seq![a].drop_last() =~= Seq::<Seq<char>>::empty());
    assert(joined(Seq::<Seq<char>>::empty()) == Seq::<char>::empty());
    assert(joined(seq![a]) == trimmed(a));
    assert(joined(pair) == trimmed(a) + seq![' '] + trimmed(b));
}

/// Join a list of text pieces into one string: trim each piece, drop the
/// pieces that were only whitespace, and separate the rest by single spaces.
pub fn join_texts(pieces: &Vec<String>) -> (r: String)
    ensures
        r@ == joined(pieces.deep_view()),
{
    let mut r = String::new();
    let mut i: usize = 0;
    while i < pieces.len()
        invariant
            0 <= i <= pieces.len(),
            r@ == joined(pieces.deep_view().take(i as int)),
        decreases pieces.len() - i,
    {
        let piece = trim_str(pieces[i].as_str());
        if !piece.is_empty() {
            if !r.as_str().is_empty() {
                r.append(" ");
            }
            r.append(piece);
        }
        proof {
            let dv = pieces.deep_view();
            assert(dv.take(i + 1).drop_last() =~= dv.take(i as int));
            assert(dv.take(i + 1).last() == dv[i as int]);
            assert(" "@ =~= seq![' ']) by {
                reveal_strlit(" ");
            }
        }
        i += 1;
    }
    proof {
        assert(pieces.deep_view().take(pieces.len() as int) =~= pieces.deep_view());
    }
    r
}

} // verus!
