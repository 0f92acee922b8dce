use vstd::prelude::*;

verus! {

/// Calls `String::push`: appends `c`.
#[verifier::external_body]
pub(crate) fn push_char(s: &mut String, c: char)
    ensures
        final(s)@ == old(s)@.push(c),
{
    s.push(c)
}

/// Calls `String::pop`: removes and returns the last character, if any.
#[verifier::external_body]
pub(crate) fn pop_char(s: &mut String) -> (r: Option<char>)
    ensures
        old(s)@.len() == 0 ==> r is None && final(s)@ == old(s)@,
        old(s)@.len() > 0 ==> r == Some(old(s)@.last()) && final(s)@ == old(s)@.drop_last(),
{
    s.pop()
}

/// Whether `i` is the position of the first space of `s`.
pub open spec fn is_first_space(s: Seq<char>, i: int) -> bool {
    &&& 0 <= i < s.len()
    &&& s[i] == ' '
    &&& forall|j: int| 0 <= j < i ==> s[j] != ' '
}

/// `s` split at its first space, as `splitn(2, ' ')` splits it: the text
/// before the space, and the text after it if there is a space.
pub open spec fn split_at_first_space(s: Seq<char>) -> (Seq<char>, Option<Seq<char>>) {
    if exists|i: int| is_first_space(s, i) {
        let i = choose|i: int| is_first_space(s, i);
        (s.take(i), Some(s.skip(i + 1)))
    } else {
        (s, None)
    }
}

/// Finds the first space of `s`, if any.
pub fn find_first_space(s: &str) -> (r: Option<usize>)
    ensures
        match r {
            Some(i) => is_first_space(s@, i as int),
            None => forall|i: int| 0 <= i < s@.len() ==> s@[i] != ' ',
        },
{
    let n = s.unicode_len();
    let mut i: usize = 0;
    while i < n
        invariant
            n == s@.len(),
            i <= n,
            forall|j: int| 0 <= j < i ==> s@[j] != ' ',
        decreases n - i,
    {
        if s.get_char(i) == ' ' {
            return Some(i);
        }
        i = i + 1;
    }
    None
}

/// Splits `s` at its first space: the text before it, and the text after it
/// if there is a space.
pub fn split_first_space<'a>(s: &'a str) -> (r: (&'a str, Option<&'a str>))
    ensures
        r.0@ == split_at_first_space(s@).0,
        match r.1 {
            Some(t) => split_at_first_space(s@).1 == Some(t@),
            None => split_at_first_space(s@).1 is None,
        },
{
    let n = s.unicode_len();
    match find_first_space(s) {
        Some(i) => {
            proof {
                assert forall|k: int| is_first_space(s@, k) implies k == i by {
                    if k < i {
                        assert(s@[k] == ' ');
                    } else if k > i {
                        assert(s@[i as int] != ' ');
                    }
                }
            }
            (s.substring_char(0, i), Some(s.substring_char(i + 1, n)))
        },
        None => (s, None),
    }
}

/// A text with a space has a first space.
proof fn lemma_first_space_exists(s: Seq<char>, j: int)
    requires
        0 <= j < s.len(),
        s[j] == ' ',
    ensures
        exists|i: int| is_first_space(s, i),
    decreases j,
{
    if exists|k: int| 0 <= k < j && s[k] == ' ' {
        let k = choose|k: int| 0 <= k < j && s[k] == ' ';
        lemma_first_space_exists(s, k);
    } else {
        assert(is_first_space(s, j));
    }
}

/// A text without a first space holds no space.
proof fn lemma_no_first_space(s: Seq<char>)
    requires
        !(exists|i: int| is_first_space(s, i)),
    ensures
        !s.contains(' '),
{
    if s.contains(' ') {
        let j = choose|j: int| 0 <= j < s.len() && s[j] == ' ';
        lemma_first_space_exists(s, j);
    }
}

/// Splitting at the first space loses only that space: the command, a
/// space and the search text give back the input; without a space the
/// command is the whole input.
pub proof fn law_split_rejoins(s: Seq<char>)
    ensures
        match split_at_first_space(s).1 {
            Some(rest) => split_at_first_space(s).0 + seq![' '] + rest == s,
            None => split_at_first_space(s).0 == s,
        },
        !split_at_first_space(s).0.contains(' '),
{
    if exists|i: int| is_first_space(s, i) {
        let i = choose|i: int| is_first_space(s, i);
        assert(s.take(i) + seq![' '] + s.skip(i + 1) =~= s);
        assert(!s.take(i).contains(' '));
    } else {
        lemma_no_first_space(s);
    }
}

/// Whether `c` is white space, as `char::is_whitespace` defines it: the
/// characters with the Unicode property `White_Space`.
pub open spec fn is_white_space(c: char) -> bool {
    let u = c as u32;
    ||| 0x9 <= u <= 0xd
    ||| u == 0x20
    ||| u == 0x85
    ||| u == 0xa0
    ||| u == 0x1680
    ||| 0x2000 <= u <= 0x200a
    ||| u == 0x2028
    ||| u == 0x2029
    ||| u == 0x202f
    ||| u == 0x205f
    ||| u == 0x3000
}

/// Decides `is_white_space`.
pub fn white_space(c: char) -> (r: bool)
    ensures
        r == is_white_space(c),
{
    let u = c as u32;
    (0x9 <= u && u <= 0xd) || u == 0x20 || u == 0x85 || u == 0xa0 || u == 0x1680 || (0x2000 <= u
        && u <= 0x200a) || u == 0x2028 || u == 0x2029 || u == 0x202f || u == 0x205f || u == 0x3000
}

/// `t` without its leading white space.
pub open spec fn trim_start(t: Seq<char>) -> Seq<char>
    decreases t.len(),
{
    if t.len() > 0 && is_white_space(t[0]) {
        trim_start(t.drop_first())
    } else {
        t
    }
}

/// `t` without its trailing white space.
pub open spec fn trim_end(t: Seq<char>) -> Seq<char>
    decreases t.len(),
{
    if t.len() > 0 && is_white_space(t.last()) {
        trim_end(t.drop_last())
    } else {
        t
    }
}

/// `t` without leading and trailing white space, as `str::trim` gives it.
pub open spec fn trim(t: Seq<char>) -> Seq<char> {
    trim_end(trim_start(t))
}

proof fn lemma_trim_start_skip(t: Seq<char>, a: int)
    requires
        0 <= a <= t.len(),
        forall|j: int| 0 <= j < a ==> is_white_space(t[j]),
    ensures
        trim_start(t) == trim_start(t.skip(a)),
    decreases a,
{
    if a > 0 {
        assert(t.drop_first().skip(a - 1) =~= t.skip(a));
        lemma_trim_start_skip(t.drop_first(), a - 1);
    } else {
        assert(t.skip(0) =~= t);
    }
}

proof fn lemma_trim_end_take(t: Seq<char>, b: int)
    requires
        0 <= b <= t.len(),
        forall|j: int| b <= j < t.len() ==> is_white_space(t[j]),
    ensures
        trim_end(t) == trim_end(t.take(b)),
    decreases t.len() - b,
{
    if b < t.len() {
        assert(t.drop_last().take(b) =~= t.take(b));
        lemma_trim_end_take(t.drop_last(), b);
    } else {
        assert(t.take(b) =~= t);
    }
}

/// Trims `s[from..to]`: returns the range of its characters that remain.
pub fn trim_range(s: &str, from: usize, to: usize) -> (r: (usize, usize))
    requires
        from <= to <= s@.len(),
    ensures
        from <= r.0 <= r.1 <= to,
        s@.subrange(r.0 as int, r.1 as int) == trim(s@.subrange(from as int, to as int)),
{
    let ghost t = s@.subrange(from as int, to as int);
    let mut a = from;
    while a < to && white_space(s.get_char(a))
        invariant
            from <= a <= to <= s@.len(),
            t == s@.subrange(from as int, to as int),
            forall|j: int| from <= j < a ==> is_white_space(s@[j]),
        decreases to - a,
    {
        a = a + 1;
    }
    proof {
        lemma_trim_start_skip(t, a - from);
        assert(t.skip(a - from) =~= s@.subrange(a as int, to as int));
    }
    let ghost u = s@.subrange(a as int, to as int);
    let mut b = to;
    while b > a && white_space(s.get_char(b - 1))
        invariant
            from <= a <= b <= to <= s@.len(),
            u == s@.subrange(a as int, to as int),
            forall|j: int| b <= j < to ==> is_white_space(s@[j]),
        decreases b - a,
    {
        b = b - 1;
    }
    proof {
        assert(trim_start(u) == u) by {
            if u.len() > 0 {
                assert(u[0] == s@[a as int]);
            }
        }
        lemma_trim_end_take(u, b - a);
        assert(u.take(b - a) =~= s@.subrange(a as int, b as int));
        let v = s@.subrange(a as int, b as int);
        assert(trim_end(v) == v) by {
            if v.len() > 0 {
                assert(v.last() == s@[b - 1]);
            }
        }
    }
    (a, b)
}

/// A trimmed piece, kept when it is not empty.
pub open spec fn keep_word(t: Seq<char>) -> Seq<Seq<char>> {
    if trim(t).len() > 0 {
        seq![trim(t)]
    } else {
        Seq::empty()
    }
}

/// The arguments in a line: the line split at every space, each piece
/// trimmed of white space, and the empty pieces dropped, as
/// `split(' ').map(str::trim).filter(|s| !s.is_empty())` gives them.
pub open spec fn words(s: Seq<char>) -> Seq<Seq<char>>
    decreases s.len(),
{
    if exists|i: int| is_first_space(s, i) {
        let i = choose|i: int| is_first_space(s, i);
        keep_word(s.take(i)) + words(s.skip(i + 1))
    } else {
        keep_word(s)
    }
}

proof fn lemma_trim_start_props(t: Seq<char>)
    ensures
        trim_start(t).len() > 0 ==> !is_white_space(trim_start(t)[0]),
        exists|a: int| 0 <= a <= t.len() && trim_start(t) == t.skip(a),
    decreases t.len(),
{
    if t.len() > 0 && is_white_space(t[0]) {
        lemma_trim_start_props(t.drop_first());
        let a = choose|a: int| 0 <= a <= t.drop_first().len() && trim_start(t.drop_first()) == t.drop_first().skip(a);
        assert(t.drop_first().skip(a) =~= t.skip(a + 1));
    } else {
        assert(t.skip(0) =~= t);
    }
}

proof fn lemma_trim_end_props(t: Seq<char>)
    ensures
        trim_end(t).len() > 0 ==> !is_white_space(trim_end(t).last()),
        exists|b: int| 0 <= b <= t.len() && trim_end(t) == t.take(b),
    decreases t.len(),
{
    if t.len() > 0 && is_white_space(t.last()) {
        lemma_trim_end_props(t.drop_last());
        let b = choose|b: int| 0 <= b <= t.drop_last().len() && trim_end(t.drop_last()) == t.drop_last().take(b);
        assert(t.drop_last().take(b) =~= t.take(b));
    } else {
        assert(t.take(t.len() as int) =~= t);
    }
}

/// A word of a line holds no space, is not empty, and neither begins nor
/// ends with white space.
pub open spec fn is_word(w: Seq<char>) -> bool {
    &&& w.len() > 0
    &&& !w.contains(' ')
    &&& !is_white_space(w[0])
    &&& !is_white_space(w.last())
}

proof fn lemma_keep_word(t: Seq<char>)
    requires
        !t.contains(' '),
    ensures
        forall|k: int| 0 <= k < keep_word(t).len() ==> is_word(#[trigger] keep_word(t)[k]),
{
    lemma_trim_start_props(t);
    let a = choose|a: int| 0 <= a <= t.len() && trim_start(t) == t.skip(a);
    lemma_trim_end_props(trim_start(t));
    let b = choose|b: int| 0 <= b <= trim_start(t).len() && trim(t) == trim_start(t).take(b);
    if trim(t).len() > 0 {
        assert(trim(t)[0] == trim_start(t)[0]);
        assert forall|j: int| 0 <= j < trim(t).len() implies trim(t)[j] != ' ' by {
            assert(trim(t)[j] == t[a + j]);
        }
    }
}

/// The arguments of a line are words: none is empty, none holds a space,
/// and none begins or ends with white space.
pub proof fn law_args_are_words(s: Seq<char>)
    ensures
        forall|k: int| 0 <= k < words(s).len() ==> is_word(#[trigger] words(s)[k]),
    decreases s.len(),
{
    if exists|i: int| is_first_space(s, i) {
        let i = choose|i: int| is_first_space(s, i);
        assert(!s.take(i).contains(' '));
        law_args_are_words(s.skip(i + 1));
        lemma_keep_word(s.take(i));
        let head = keep_word(s.take(i));
        let tail = words(s.skip(i + 1));
        assert forall|k: int| 0 <= k < words(s).len() implies is_word(#[trigger] words(s)[k]) by {
            if k < head.len() {
                assert(words(s)[k] == head[k]);
            } else {
                assert(words(s)[k] == tail[k - head.len()]);
            }
        }
    } else {
        lemma_no_first_space(s);
        lemma_keep_word(s);
    }
}

/// White space is what `char::is_whitespace` says it is: the tab, the line
/// feed, the vertical tab, the form feed and the carriage return, the space,
/// the next-line character, the no-break space, the Ogham space mark, the
/// spaces from the en quad to the hair space, the line and paragraph
/// separators, the narrow no-break space, the medium mathematical space and
/// the ideographic space.
pub proof fn law_white_space_is_unicode_white_space(c: char)
    ensures
        is_white_space(c) <==> {
            let u = c as u32;
            ||| u == 0x9 || u == 0xa || u == 0xb || u == 0xc || u == 0xd
            ||| u == 0x20 || u == 0x85 || u == 0xa0 || u == 0x1680
            ||| 0x2000 <= u <= 0x200a
            ||| u == 0x2028 || u == 0x2029 || u == 0x202f || u == 0x205f || u == 0x3000
        },
{
}

/// No argument read from a line begins or ends with a tab, a line break or
/// a carriage return (as `read_line` leaves at the end of a line typed on
/// Windows), or with any other white space; none is empty.
pub proof fn law_args_are_trimmed(line: Seq<char>, k: int)
    requires
        0 <= k < words(line).len(),
    ensures
        words(line)[k].len() > 0,
        words(line)[k][0] != '\t' && words(line)[k][0] != '\n' && words(line)[k][0] != '\r' && words(line)[k][0] != ' ',
        words(line)[k].last() != '\t' && words(line)[k].last() != '\n' && words(line)[k].last() != '\r',
        !(0x9 <= words(line)[k][0] as u32 <= 0xd || words(line)[k][0] as u32 == 0x20 || words(line)[k][0] as u32 == 0x85
            || words(line)[k][0] as u32 == 0xa0 || words(line)[k][0] as u32 == 0x3000),
        !(0x9 <= words(line)[k].last() as u32 <= 0xd || words(line)[k].last() as u32 == 0x20 || words(line)[k].last() as u32
            == 0x85 || words(line)[k].last() as u32 == 0xa0 || words(line)[k].last() as u32 == 0x3000),
{
    law_args_are_words(line);
    assert(is_word(words(line)[k]));
    law_white_space_is_unicode_white_space(words(line)[k][0]);
    law_white_space_is_unicode_white_space(words(line)[k].last());
}

/// The views of a list of strings.
pub open spec fn strings_view(v: Seq<String>) -> Seq<Seq<char>> {
    v.map_values(|x: String| x@)
}

/// The arguments that the user typed after the name of the file to run.
pub fn command_args(line: &str) -> (r: Vec<String>)
    ensures
        strings_view(r@) == words(line@),
{
    let n = line.unicode_len();
    let mut r: Vec<String> = Vec::new();
    let mut start: usize = 0;
    let mut i: usize = 0;
    proof {
        assert(line@.skip(0) =~= line@);
        assert(strings_view(r@) + words(line@) =~= words(line@));
    }
    while i < n
        invariant
            n == line@.len(),
            start <= i <= n,
            forall|j: int| start <= j < i ==> line@[j] != ' ',
            strings_view(r@) + words(line@.skip(start as int)) == words(line@),
        decreases n - i,
    {
        if line.get_char(i) == ' ' {
            let ghost rest = line@.skip(start as int);
            let ghost before = r@;
            let (a, b) = trim_range(line, start, i);
            proof {
                assert(is_first_space(rest, i - start));
                assert forall|k: int| is_first_space(rest, k) implies k == i - start by {
                    if k < i - start {
                        assert(rest[k] == line@[start + k]);
                    } else if k > i - start {
                        assert(rest[i - start] == ' ');
                    }
                }
                assert(rest.take(i - start) =~= line@.subrange(start as int, i as int));
                assert(rest.skip(i - start + 1) =~= line@.skip(i + 1));
            }
            if a < b {
                let w = line.substring_char(a, b).to_owned();
                r.push(w);
            }
            proof {
                assert(strings_view(r@) =~= strings_view(before) + keep_word(line@.subrange(start as int, i as int)));
                assert(strings_view(r@) + words(line@.skip(i + 1)) =~= words(line@));
            }
            start = i + 1;
        }
        i = i + 1;
    }
    let ghost rest = line@.skip(start as int);
    let ghost before = r@;
    let (a, b) = trim_range(line, start, n);
    proof {
        assert(rest =~= line@.subrange(start as int, n as int));
        assert forall|k: int| !is_first_space(rest, k) by {
            if 0 <= k < rest.len() {
                assert(rest[k] == line@[start + k]);
            }
        }
    }
    if a < b {
        let w = line.substring_char(a, b).to_owned();
        r.push(w);
    }
    proof {
        assert(strings_view(r@) =~= strings_view(before) + keep_word(rest));
    }
    r
}

} // verus!
