use vstd::prelude::*;
use crate::files::file_base::FileBase;
use crate::files::runnable_file::RunnableFile;
use crate::filtered_list::PAGE_SIZE;

verus! {

/// What `str::to_lowercase` gives for a text: its lower-case form by the
/// Unicode case tables of the standard library.
pub uninterp spec fn lowercase(s: Seq<char>) -> Seq<char>;

/// Calls `str::to_lowercase`. Claimed: the result depends on the text alone.
#[verifier::external_body]
fn to_lowercase(s: &str) -> (r: String)
    ensures
        r@ == lowercase(s@),
{
    s.to_lowercase()
}

/// Whether `char::is_numeric` holds of a character: it belongs to one of
/// the Unicode number categories.
pub uninterp spec fn numeric(c: char) -> bool;

/// Calls `char::is_numeric`. Claimed: the result depends on the character
/// alone; the ASCII digits are numeric and no other ASCII character is, as
/// the Unicode number categories hold no other ASCII character.
#[verifier::external_body]
fn is_numeric(c: char) -> (r: bool)
    ensures
        r == numeric(c),
        '0' <= c <= '9' ==> r,
        (c as u32) < 128 && !('0' <= c <= '9') ==> !r,
{
    c.is_numeric()
}

/// The characters of a text.
pub fn chars_of(s: &str) -> (r: Vec<char>)
    ensures
        r@ == s@,
{
    let mut r: Vec<char> = Vec::new();
    for c in it: s.chars()
        invariant
            it.seq() == s@,
            r@ == it.seq().take(it.index()),
    {
        r.push(c);
    }
    assert(r@ =~= s@);
    r
}

/// Whether `needle` occurs in `hay` as a block of consecutive characters.
pub open spec fn contains_text(hay: Seq<char>, needle: Seq<char>) -> bool {
    exists|i: int| 0 <= i && i + needle.len() <= hay.len() && #[trigger] hay.subrange(i, i + needle.len()) == needle
}

/// A text contains every block of consecutive characters of it, at its
/// start, in its middle and at its end: `before + needle + after` contains
/// `needle`, whatever `before` and `after` are (empty ones included).
pub proof fn law_text_contains_its_parts(before: Seq<char>, needle: Seq<char>, after: Seq<char>)
    ensures
        contains_text(before + needle + after, needle),
        contains_text(before + needle, needle),
        contains_text(needle, needle),
{
    let hay = before + needle + after;
    assert(hay.subrange(before.len() as int, (before.len() + needle.len()) as int) =~= needle);
    let end = before + needle;
    assert(end.subrange(before.len() as int, (before.len() + needle.len()) as int) =~= needle);
    assert(needle.subrange(0int, 0int + needle.len()) =~= needle);
}

/// Decides `contains_text`.
pub fn find_text(hay: &Vec<char>, needle: &Vec<char>) -> (r: bool)
    ensures
        r == contains_text(hay@, needle@),
{
    let n = hay.len();
    let m = needle.len();
    if m > n {
        return false;
    }
    let mut i: usize = 0;
    while i <= n - m
        invariant
            n == hay@.len(),
            m == needle@.len(),
            m <= n,
            i <= n - m + 1,
            forall|k: int| 0 <= k < i ==> #[trigger] hay@.subrange(k, k + m) != needle@,
        decreases n - m + 1 - i,
    {
        let mut j: usize = 0;
        while j < m && hay[i + j] == needle[j]
            invariant
                n == hay@.len(),
                m == needle@.len(),
                i + m <= n,
                j <= m,
                forall|q: int| 0 <= q < j ==> hay@[i + q] == needle@[q],
            decreases m - j,
        {
            j = j + 1;
        }
        if j == m {
            assert(hay@.subrange(i as int, i + m) =~= needle@);
            return true;
        }
        assert(hay@.subrange(i as int, i + m)[j as int] != needle@[j as int]);
        i = i + 1;
    }
    false
}

/// Whether a file's path holds the search text, both taken in lower case.
pub open spec fn path_matches<T: FileBase>(f: T, search: Seq<char>) -> bool {
    contains_text(lowercase(f.path_view()), lowercase(search))
}

/// The files that the start-menu picker lists: those whose path holds the
/// search text, case aside, in the order found, at most a page of them.
pub fn filter_by_text<'a>(commands: &'a Vec<RunnableFile>, search_str: &str) -> (r: Vec<&'a RunnableFile>)
    ensures
        r@.map_values(|f: &RunnableFile| *f) == ({
            let kept = commands@.filter(|f: RunnableFile| path_matches(f, search_str@));
            if kept.len() <= PAGE_SIZE { kept } else { kept.take(PAGE_SIZE as int) }
        }),
{
    let ghost pred = |f: RunnableFile| path_matches(f, search_str@);
    let lower_search = to_lowercase(search_str);
    let needle = chars_of(lower_search.as_str());
    let mut r: Vec<&'a RunnableFile> = Vec::new();
    let mut i: usize = 0;
    while i < commands.len() && r.len() < PAGE_SIZE
        invariant
            i <= commands@.len(),
            needle@ == lowercase(search_str@),
            pred == (|f: RunnableFile| path_matches(f, search_str@)),
            r@.map_values(|f: &RunnableFile| *f) == commands@.take(i as int).filter(pred),
            r@.len() <= PAGE_SIZE,
        decreases commands@.len() - i,
    {
        let f: &'a RunnableFile = &commands[i];
        let path = f.get_path();
        let lower = to_lowercase(path.as_str());
        let hay = chars_of(lower.as_str());
        let keep = find_text(&hay, &needle);
        proof {
            assert(commands@.take(i + 1) =~= commands@.take(i as int).push(commands@[i as int]));
            commands@.take(i as int).lemma_filter_push(commands@[i as int], pred);
        }
        assert(*f == commands@[i as int]);
        assert(path@ == commands@[i as int].path_view());
        assert(hay@ == lowercase(commands@[i as int].path_view()));
        assert(keep == path_matches(commands@[i as int], search_str@));
        assert(keep == pred(commands@[i as int]));
        let ghost before = r@;
        if keep {
            r.push(f);
            assert(r@.map_values(|f: &RunnableFile| *f) =~= before.map_values(|f: &RunnableFile| *f).push(*f));
        }
        proof {
            assert(r@.map_values(|f: &RunnableFile| *f) =~= commands@.take(i + 1).filter(pred));
        }
        i = i + 1;
    }
    proof {
        let kept = commands@.filter(pred);
        let prefix = commands@.take(i as int);
        assert(commands@ =~= prefix + commands@.skip(i as int));
        Seq::filter_distributes_over_add(prefix, commands@.skip(i as int), pred);
        broadcast use vstd::seq_lib::group_filter_ensures;
        if i == commands@.len() {
            assert(prefix =~= commands@);
        } else {
            assert(r@.len() == PAGE_SIZE);
            assert(kept.take(PAGE_SIZE as int) =~= prefix.filter(pred));
        }
    }
    r
}

/// Whether `c` is an ASCII digit.
pub open spec fn is_digit(c: char) -> bool {
    '0' <= c <= '9'
}

/// The value of a digit; 0 for any other character.
pub open spec fn digit_value(c: char) -> nat {
    if is_digit(c) {
        (c as nat - '0' as nat) as nat
    } else {
        0
    }
}

/// The decimal number that the digits of `s` write.
pub open spec fn decimal(s: Seq<char>) -> nat
    decreases s.len(),
{
    if s.len() == 0 {
        0
    } else {
        decimal(s.drop_last()) * 10 + digit_value(s.last())
    }
}

/// The number the user typed to choose a file, as the start-menu lister
/// reads it: the numeric characters of the line, read as a decimal number;
/// `None` where they are none, are not all ASCII digits, or the number does
/// not fit in `usize`.
pub open spec fn choice_spec(line: Seq<char>) -> Option<usize> {
    let d = line.filter(|c: char| numeric(c));
    if d.len() > 0 && (forall|k: int| 0 <= k < d.len() ==> is_digit(#[trigger] d[k])) && decimal(d)
        <= usize::MAX {
        Some(decimal(d) as usize)
    } else {
        None
    }
}

/// The number typed on a line of ASCII text: its digits, read as a decimal
/// number; `None` where there are none or the number does not fit in
/// `usize`.
pub open spec fn ascii_choice_spec(line: Seq<char>) -> Option<usize> {
    let d = line.filter(|c: char| is_digit(c));
    if d.len() > 0 && decimal(d) <= usize::MAX {
        Some(decimal(d) as usize)
    } else {
        None
    }
}

/// Whether every character of `s` is ASCII.
pub open spec fn all_ascii(s: Seq<char>) -> bool {
    forall|k: int| 0 <= k < s.len() ==> (#[trigger] s[k] as u32) < 128
}

proof fn lemma_decimal_prefix(s: Seq<char>, k: int)
    requires
        0 <= k <= s.len(),
    ensures
        decimal(s.take(k)) <= decimal(s),
    decreases s.len() - k,
{
    if k < s.len() {
        lemma_decimal_prefix(s, k + 1);
        assert(s.take(k + 1).drop_last() =~= s.take(k));
    } else {
        assert(s.take(k) =~= s);
    }
}

/// Reads the choice typed on `line`.
pub fn parse_choice(line: &str) -> (r: Option<usize>)
    ensures
        r == choice_spec(line@),
        all_ascii(line@) ==> r == ascii_choice_spec(line@),
{
    let ghost pred = |c: char| numeric(c);
    let ghost dpred = |c: char| is_digit(c);
    let chars = chars_of(line);
    let mut kept: Vec<char> = Vec::new();
    let mut i: usize = 0;
    while i < chars.len()
        invariant
            chars@ == line@,
            i <= chars@.len(),
            pred == (|c: char| numeric(c)),
            dpred == (|c: char| is_digit(c)),
            kept@ == chars@.take(i as int).filter(pred),
            all_ascii(chars@.take(i as int)) ==> kept@ == chars@.take(i as int).filter(dpred),
        decreases chars@.len() - i,
    {
        proof {
            assert(chars@.take(i + 1) =~= chars@.take(i as int).push(chars@[i as int]));
            chars@.take(i as int).lemma_filter_push(chars@[i as int], pred);
            chars@.take(i as int).lemma_filter_push(chars@[i as int], dpred);
            if all_ascii(chars@.take(i + 1)) {
                assert forall|k: int| 0 <= k < i implies (#[trigger] chars@.take(i as int)[k] as u32) < 128 by {
                    assert(chars@.take(i as int)[k] == chars@.take(i + 1)[k]);
                }
                assert(chars@.take(i + 1)[i as int] == chars@[i as int]);
            }
        }
        if is_numeric(chars[i]) {
            kept.push(chars[i]);
        }
        i = i + 1;
    }
    proof {
        assert(chars@.take(i as int) =~= line@);
        line@.filter_lemma(dpred);
    }
    if kept.len() == 0 {
        return None;
    }
    let mut value: usize = 0;
    let mut j: usize = 0;
    while j < kept.len()
        invariant
            kept@ == line@.filter(pred),
            pred == (|c: char| numeric(c)),
            dpred == (|c: char| is_digit(c)),
            all_ascii(line@) ==> kept@ == line@.filter(dpred),
            forall|k: int| 0 <= k < line@.filter(dpred).len() ==> dpred(#[trigger] line@.filter(dpred)[k]),
            j <= kept@.len(),
            kept@.len() > 0,
            value == decimal(kept@.take(j as int)),
            forall|k: int| 0 <= k < j ==> is_digit(#[trigger] kept@[k]),
        decreases kept@.len() - j,
    {
        let c = kept[j];
        proof {
            assert(kept@.take(j + 1).drop_last() =~= kept@.take(j as int));
        }
        if !('0' <= c && c <= '9') {
            return None;
        }
        let d = (c as u32 - '0' as u32) as usize;
        match value.checked_mul(10) {
            Some(t) => match t.checked_add(d) {
                Some(v) => {
                    value = v;
                },
                None => {
                    proof {
                        lemma_decimal_prefix(kept@, j + 1);
                    }
                    return None;
                },
            },
            None => {
                proof {
                    lemma_decimal_prefix(kept@, j + 1);
                }
                return None;
            },
        }
        j = j + 1;
    }
    proof {
        assert(kept@.take(j as int) =~= kept@);
    }
    Some(value)
}

} // verus!
