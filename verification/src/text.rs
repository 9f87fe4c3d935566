use vstd::prelude::*;

verus! {

// ---------------------------------------------------------------------------
// Trusted item
// ---------------------------------------------------------------------------

/// Relies on `str`'s `PartialEq` from std: two string slices compare equal
/// exactly when they consist of the same characters in the same order.
#[verifier::external_body]
pub(crate) fn str_eq(a: &str, b: &str) -> (r: bool)
    ensures
        r == (a@ == b@),
{
    a == b
}

// ---------------------------------------------------------------------------
// Lexicographic order on character sequences
// ---------------------------------------------------------------------------

/// Lexicographic "less or equal" on character sequences, comparing scalar
/// values position by position. On UTF-8 encoded names this coincides with
/// byte-wise comparison, since UTF-8 preserves code-point order.
pub open spec fn lex_le(a: Seq<char>, b: Seq<char>) -> bool
    decreases a.len(),
{
    if a.len() == 0 {
        true
    } else if b.len() == 0 {
        false
    } else if a[0] != b[0] {
        (a[0] as u32) < (b[0] as u32)
    } else {
        lex_le(a.drop_first(), b.drop_first())
    }
}

/// Strict lexicographic order.
pub open spec fn lex_lt(a: Seq<char>, b: Seq<char>) -> bool {
    lex_le(a, b) && a != b
}

/// Dropping an equal prefix from both sequences does not change their order.
proof fn lemma_lex_skip(a: Seq<char>, b: Seq<char>, i: int)
    requires
        0 <= i <= a.len(),
        i <= b.len(),
        forall|j: int| 0 <= j < i ==> a[j] == b[j],
    ensures
        lex_le(a, b) == lex_le(a.skip(i), b.skip(i)),
    decreases i,
{
    if i == 0 {
        assert(a.skip(0) =~= a);
        assert(b.skip(0) =~= b);
    } else {
        assert(a.drop_first() =~= a.skip(1));
        assert(b.drop_first() =~= b.skip(1));
        lemma_lex_skip(a.skip(1), b.skip(1), i - 1);
        assert(a.skip(1).skip(i - 1) =~= a.skip(i));
        assert(b.skip(1).skip(i - 1) =~= b.skip(i));
    }
}

/// `lex_le` is total: two sequences always compare one way or the other.
pub proof fn lemma_lex_total(a: Seq<char>, b: Seq<char>)
    ensures
        lex_le(a, b) || lex_le(b, a),
    decreases a.len(),
{
    if a.len() > 0 && b.len() > 0 {
        if a[0] == b[0] {
            lemma_lex_total(a.drop_first(), b.drop_first());
        } else {
            assert((a[0] as u32) != (b[0] as u32)) by {
                vstd::utf8::char_u32_cast(a[0], a[0] as u32);
                vstd::utf8::char_u32_cast(b[0], b[0] as u32);
            }
        }
    }
}

/// `lex_le` is transitive.
pub proof fn lemma_lex_trans(a: Seq<char>, b: Seq<char>, c: Seq<char>)
    requires
        lex_le(a, b),
        lex_le(b, c),
    ensures
        lex_le(a, c),
    decreases a.len(),
{
    if a.len() > 0 && b.len() > 0 && c.len() > 0 && a[0] == b[0] && b[0] == c[0] {
        lemma_lex_trans(a.drop_first(), b.drop_first(), c.drop_first());
    }
}

/// Three-way comparison of two strings in the order of `lex_le`.
pub fn cmp_str(a: &str, b: &str) -> (r: core::cmp::Ordering)
    ensures
        (r == core::cmp::Ordering::Equal) == (a@ == b@),
        (r == core::cmp::Ordering::Less) == lex_lt(a@, b@),
        (r == core::cmp::Ordering::Greater) == !lex_le(a@, b@),
{
    let alen = a.unicode_len();
    let blen = b.unicode_len();
    let mut i: usize = 0;
    loop
        invariant
            0 <= i <= alen,
            i <= blen,
            alen == a@.len(),
            blen == b@.len(),
            forall|j: int| 0 <= j < i ==> a@[j] == b@[j],
        decreases alen - i,
    {
        proof {
            lemma_lex_skip(a@, b@, i as int);
        }
        if i >= alen {
            if i >= blen {
                proof {
                    assert(a@ =~= b@);
                }
                return core::cmp::Ordering::Equal;
            } else {
                proof {
                    assert(lex_le(a@, b@));
                    assert(a@.len() != b@.len());
                }
                return core::cmp::Ordering::Less;
            }
        }
        if i >= blen {
            proof {
                assert(b@.skip(i as int).len() == 0);
                assert(a@.skip(i as int).len() > 0);
                assert(!lex_le(a@, b@));
            }
            return core::cmp::Ordering::Greater;
        }
        let ca = a.get_char(i);
        let cb = b.get_char(i);
        if ca != cb {
            proof {
                assert(a@.skip(i as int)[0] == a@[i as int]);
                assert(b@.skip(i as int)[0] == b@[i as int]);
                assert(a@ != b@);
            }
            if (ca as u32) < (cb as u32) {
                return core::cmp::Ordering::Less;
            } else {
                return core::cmp::Ordering::Greater;
            }
        }
        i = i + 1;
    }
}

/// A path with one leading `./` removed, as `GitignoreBuilder::new` stores
/// its root.
pub open spec fn strip_dot_slash(s: Seq<char>) -> Seq<char> {
    if s.len() >= 2 && s[0] == '.' && s[1] == '/' {
        s.skip(2)
    } else {
        s
    }
}

// ---------------------------------------------------------------------------
// Last path component
// ---------------------------------------------------------------------------

/// Index of the last `/` in `s`, or `-1` if there is none.
pub open spec fn last_slash(s: Seq<char>) -> int
    decreases s.len(),
{
    if s.len() == 0 {
        -1
    } else if s[s.len() - 1] == '/' {
        s.len() - 1
    } else {
        last_slash(s.drop_last())
    }
}

proof fn lemma_last_slash_range(s: Seq<char>)
    ensures
        -1 <= last_slash(s) < s.len(),
    decreases s.len(),
{
    if s.len() > 0 && s[s.len() - 1] != '/' {
        lemma_last_slash_range(s.drop_last());
    }
}

/// The part of a path after its last `/`; the whole path if it has none.
pub open spec fn last_component(s: Seq<char>) -> Seq<char> {
    s.skip(last_slash(s) + 1)
}

/// Computes the last path component of `path`.
pub fn last_component_of(path: &str) -> (r: &str)
    ensures
        r@ == last_component(path@),
{
    let len = path.unicode_len();
    let mut i: usize = len;
    proof {
        assert(path@.take(len as int) =~= path@);
    }
    loop
        invariant
            0 <= i <= len,
            len == path@.len(),
            last_slash(path@) == last_slash(path@.take(i as int)),
        ensures
            0 <= i <= len,
            len == path@.len(),
            last_slash(path@) == last_slash(path@.take(i as int)),
            i == 0 || path@[i as int - 1] == '/',
        decreases i,
    {
        if i == 0 {
            break;
        }
        let c = path.get_char(i - 1);
        if c == '/' {
            break;
        }
        proof {
            assert(path@.take(i as int).drop_last() =~= path@.take(i as int - 1));
            assert(path@.take(i as int)[i as int - 1] != '/');
        }
        i = i - 1;
    }
    proof {
        if i > 0 {
            assert(path@.take(i as int)[i as int - 1] == '/');
            assert(last_slash(path@.take(i as int)) == i - 1);
        } else {
            assert(path@.take(0).len() == 0);
        }
        assert(path@.subrange(i as int, len as int) =~= path@.skip(last_slash(path@) + 1));
    }
    path.substring_char(i, len)
}

// ---------------------------------------------------------------------------
// Splitting patterns on `|`
// ---------------------------------------------------------------------------

/// One pass of splitting on `|`: `cur` is the piece read so far.
pub open spec fn split_acc(s: Seq<char>, cur: Seq<char>) -> Seq<Seq<char>>
    decreases s.len(),
{
    if s.len() == 0 {
        seq![cur]
    } else if s[0] == '|' {
        seq![cur] + split_acc(s.drop_first(), Seq::<char>::empty())
    } else {
        split_acc(s.drop_first(), cur.push(s[0]))
    }
}

/// A pattern string split on `|` into its alternatives. The empty string
/// splits into one empty alternative.
pub open spec fn spec_split_bars(s: Seq<char>) -> Seq<Seq<char>> {
    split_acc(s, Seq::<char>::empty())
}

/// Splits a pattern string on `|` into its alternatives.
pub fn split_bars(s: &str) -> (r: Vec<String>)
    ensures
        r.deep_view() == spec_split_bars(s@),
{
    let len = s.unicode_len();
    let mut pieces: Vec<String> = Vec::new();
    let mut start: usize = 0;
    let mut i: usize = 0;
    proof {
        assert(s@.skip(0) =~= s@);
        assert(s@.subrange(0, 0) =~= Seq::<char>::empty());
        assert(pieces.deep_view() =~= Seq::<Seq<char>>::empty());
        assert(pieces.deep_view() + split_acc(s@, Seq::<char>::empty()) =~= split_acc(
            s@,
            Seq::<char>::empty(),
        ));
    }
    while i < len
        invariant
            0 <= start <= i <= len,
            len == s@.len(),
            spec_split_bars(s@) == pieces.deep_view() + split_acc(
                s@.skip(i as int),
                s@.subrange(start as int, i as int),
            ),
        decreases len - i,
    {
        let c = s.get_char(i);
        proof {
            assert(s@.skip(i as int)[0] == s@[i as int]);
            assert(s@.skip(i as int).drop_first() =~= s@.skip(i as int + 1));
        }
        if c == '|' {
            let piece = String::from_str(s.substring_char(start, i));
            pieces.push(piece);
            proof {
                assert(pieces.deep_view() =~= pieces.deep_view().drop_last().push(
                    s@.subrange(start as int, i as int),
                ));
                assert(s@.subrange(i as int + 1, i as int + 1) =~= Seq::<char>::empty());
                assert(pieces.deep_view() + split_acc(s@.skip(i as int + 1), Seq::<char>::empty())
                    =~= pieces.deep_view().drop_last() + (seq![
                    s@.subrange(start as int, i as int),
                ] + split_acc(s@.skip(i as int + 1), Seq::<char>::empty())));
            }
            start = i + 1;
        } else {
            proof {
                assert(s@.subrange(start as int, i as int).push(s@[i as int]) =~= s@.subrange(
                    start as int,
                    i as int + 1,
                ));
            }
        }
        i = i + 1;
    }
    let piece = String::from_str(s.substring_char(start, len));
    pieces.push(piece);
    proof {
        assert(s@.skip(len as int).len() == 0);
        assert(pieces.deep_view() =~= pieces.deep_view().drop_last().push(
            s@.subrange(start as int, len as int),
        ));
        assert(pieces.deep_view() =~= pieces.deep_view().drop_last() + seq![
            s@.subrange(start as int, len as int),
        ]);
    }
    pieces
}

// ---------------------------------------------------------------------------
// Decimal rendering of counters
// ---------------------------------------------------------------------------

pub open spec fn digit_char(d: int) -> char {
    if d == 0 {
        '0'
    } else if d == 1 {
        '1'
    } else if d == 2 {
        '2'
    } else if d == 3 {
        '3'
    } else if d == 4 {
        '4'
    } else if d == 5 {
        '5'
    } else if d == 6 {
        '6'
    } else if d == 7 {
        '7'
    } else if d == 8 {
        '8'
    } else {
        '9'
    }
}

/// The usual decimal notation of a non-negative integer.
pub open spec fn spec_decimal(n: int) -> Seq<char>
    decreases n,
{
    if n < 10 {
        seq![digit_char(n)]
    } else {
        spec_decimal(n / 10).push(digit_char(n % 10))
    }
}

fn digit_str(d: usize) -> (s: &'static str)
    requires
        d < 10,
    ensures
        s@ =~= seq![digit_char(d as int)],
{
    proof {
        reveal_strlit("0");
        reveal_strlit("1");
        reveal_strlit("2");
        reveal_strlit("3");
        reveal_strlit("4");
        reveal_strlit("5");
        reveal_strlit("6");
        reveal_strlit("7");
        reveal_strlit("8");
        reveal_strlit("9");
    }
    match d {
        0 => "0",
        1 => "1",
        2 => "2",
        3 => "3",
        4 => "4",
        5 => "5",
        6 => "6",
        7 => "7",
        8 => "8",
        _ => "9",
    }
}

/// Renders `n` in decimal.
pub fn usize_to_string(n: usize) -> (s: String)
    ensures
        s@ == spec_decimal(n as int),
    decreases n,
{
    if n < 10 {
        String::from_str(digit_str(n))
    } else {
        let prefix = usize_to_string(n / 10);
        let s = prefix.concat(digit_str(n % 10));
        proof {
            assert(s@ =~= spec_decimal(n as int));
        }
        s
    }
}

} // verus!
