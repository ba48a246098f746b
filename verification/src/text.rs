use vstd::prelude::*;
use vstd::utf8::{encode_utf8, is_ascii_chars, is_ascii_chars_encode_utf8};

verus! {

/// Builds a `String` from characters.
/// Trusted: `String`'s `FromIterator<&char>` (std), which appends the
/// characters in order, so the string holds exactly `chars`.
#[verifier::external_body]
pub(crate) fn string_from_chars(chars: &Vec<char>) -> (s: String)
    ensures
        s@ == chars@,
{
    chars.iter().collect::<String>()
}

/// `l` without the carriage return that ends it, if one does.
pub open spec fn strip_cr(l: Seq<char>) -> Seq<char> {
    if l.len() > 0 && l.last() == '\r' {
        l.drop_last()
    } else {
        l
    }
}

/// Reading `t` from the front: the lines ended so far by a line feed, and
/// the text read since the last line feed.
pub open spec fn scan_lines(t: Seq<char>) -> (Seq<Seq<char>>, Seq<char>)
    decreases t.len(),
{
    if t.len() == 0 {
        (Seq::empty(), Seq::empty())
    } else {
        let (done, cur) = scan_lines(t.drop_last());
        if t.last() == '\n' {
            (done.push(strip_cr(cur)), Seq::empty())
        } else {
            (done, cur.push(t.last()))
        }
    }
}

/// The lines of `t`, as `str::lines` gives them: split at each line feed,
/// a carriage return just before a line feed dropped, and no empty line
/// after a final line feed.
pub open spec fn text_lines(t: Seq<char>) -> Seq<Seq<char>> {
    let (done, cur) = scan_lines(t);
    if cur.len() > 0 {
        done.push(cur)
    } else {
        done
    }
}

pub open spec fn string_views(s: Seq<String>) -> Seq<Seq<char>> {
    s.map_values(|l: String| l@)
}

/// The lines of `text`, each as a `String`.
pub fn split_lines(text: &str) -> (r: Vec<String>)
    ensures
        string_views(r@) == text_lines(text@),
{
    let mut lines: Vec<String> = Vec::new();
    let mut cur: Vec<char> = Vec::new();
    for ch in it: text.chars()
        invariant
            it.seq() == text@,
            string_views(lines@) == scan_lines(text@.take(it.index())).0,
            cur@ == scan_lines(text@.take(it.index())).1,
    {
        let ghost before = text@.take(it.index());
        assert(text@.take(it.index() + 1).drop_last() =~= before);
        if ch == '\n' {
            if cur.len() > 0 && cur[cur.len() - 1] == '\r' {
                cur.pop();
            }
            assert(cur@ =~= strip_cr(scan_lines(before).1));
            lines.push(string_from_chars(&cur));
            assert(string_views(lines@) =~= scan_lines(before).0.push(strip_cr(scan_lines(before).1)));
            cur = Vec::new();
            assert(cur@ =~= Seq::<char>::empty());
        } else {
            cur.push(ch);
        }
    }
    assert(text@.take(text@.len() as int) =~= text@);
    if cur.len() > 0 {
        lines.push(string_from_chars(&cur));
        assert(string_views(lines@) =~= text_lines(text@));
    }
    lines
}

/// The UTF-8 bytes of two texts one after the other are the bytes of each,
/// one after the other.
pub proof fn lemma_encode_concat(a: Seq<char>, b: Seq<char>)
    ensures
        encode_utf8(a + b) == encode_utf8(a) + encode_utf8(b),
    decreases a.len(),
{
    if a.len() == 0 {
        assert(a + b =~= b);
        assert(encode_utf8(a) =~= Seq::<u8>::empty());
        assert(encode_utf8(a) + encode_utf8(b) =~= encode_utf8(b));
    } else {
        assert((a + b)[0] == a[0]);
        assert((a + b).drop_first() =~= a.drop_first() + b);
        lemma_encode_concat(a.drop_first(), b);
        assert(encode_utf8(a + b) =~= encode_utf8(a) + encode_utf8(b));
    }
}

/// An ASCII text takes one byte per character.
pub proof fn lemma_ascii_len(a: Seq<char>)
    requires
        is_ascii_chars(a),
    ensures
        encode_utf8(a).len() == a.len(),
{
    is_ascii_chars_encode_utf8(a);
}

/// `t` with every carriage return that stands just before a line feed taken
/// out.
pub open spec fn without_crlf(t: Seq<char>) -> Seq<char>
    decreases t.len(),
{
    if t.len() == 0 {
        t
    } else if t.len() >= 2 && t.last() == '\n' && t[t.len() - 2] == '\r' {
        without_crlf(t.take(t.len() - 2)).push('\n')
    } else {
        without_crlf(t.drop_last()).push(t.last())
    }
}

/// The lines, each followed by a line feed.
pub open spec fn with_feeds(lines: Seq<Seq<char>>) -> Seq<char>
    decreases lines.len(),
{
    if lines.len() == 0 {
        Seq::empty()
    } else {
        with_feeds(lines.drop_last()) + lines.last() + seq!['\n']
    }
}

pub open spec fn no_feed(l: Seq<char>) -> bool {
    forall|i: int| 0 <= i < l.len() ==> l[i] != '\n'
}

proof fn lemma_with_feeds_push(d: Seq<Seq<char>>, x: Seq<char>)
    ensures
        with_feeds(d.push(x)) == with_feeds(d) + x + seq!['\n'],
{
    assert(d.push(x).drop_last() =~= d);
}

proof fn lemma_scan_gives_back(t: Seq<char>)
    ensures
        with_feeds(scan_lines(t).0) + scan_lines(t).1 == without_crlf(t),
        scan_lines(t).1.len() == 0 <==> (t.len() == 0 || t.last() == '\n'),
        scan_lines(t).1.len() > 0 ==> scan_lines(t).1.last() == t.last(),
        no_feed(scan_lines(t).1),
        forall|i: int| 0 <= i < scan_lines(t).0.len() ==> no_feed(#[trigger] scan_lines(t).0[i]),
    decreases t.len(),
{
    if t.len() > 0 {
        let p = t.drop_last();
        let c = t.last();
        lemma_scan_gives_back(p);
        let (d, cu) = scan_lines(p);
        if c == '\n' {
            lemma_with_feeds_push(d, strip_cr(cu));
            if p.len() > 0 && p.last() == '\r' {
                assert(t[t.len() - 2] == p.last());
                assert(t.take(t.len() - 2) =~= p.drop_last());
                assert(p.len() < 2 || p.last() != '\n');
                assert(without_crlf(p) == without_crlf(p.drop_last()).push('\r'));
                assert(cu =~= cu.drop_last().push('\r'));
                let a = with_feeds(d) + cu.drop_last();
                let b = without_crlf(p.drop_last());
                assert(with_feeds(d) + cu =~= a.push('\r'));
                assert(a.push('\r') == b.push('\r'));
                assert(a =~= a.push('\r').drop_last());
                assert(b =~= b.push('\r').drop_last());
                assert(with_feeds(d.push(strip_cr(cu))) =~= without_crlf(t));
            } else {
                if p.len() > 0 {
                    assert(t[t.len() - 2] == p.last());
                }
                assert(strip_cr(cu) == cu);
                assert(without_crlf(t) == without_crlf(p).push('\n'));
                assert(with_feeds(d.push(strip_cr(cu))) =~= without_crlf(t));
            }
            assert(scan_lines(t).1 =~= Seq::<char>::empty());
            assert forall|i: int| 0 <= i < scan_lines(t).0.len() implies no_feed(
                #[trigger] scan_lines(t).0[i],
            ) by {
                if i < d.len() {
                    assert(scan_lines(t).0[i] == d[i]);
                } else {
                    assert(scan_lines(t).0[i] == strip_cr(cu));
                    assert forall|j: int| 0 <= j < strip_cr(cu).len() implies strip_cr(cu)[j] != '\n' by {
                        assert(strip_cr(cu)[j] == cu[j]);
                    }
                }
            }
        } else {
            assert(without_crlf(t) == without_crlf(p).push(c));
            assert(with_feeds(d) + cu.push(c) =~= (with_feeds(d) + cu).push(c));
        }
    }
}

/// Loading keeps every character of a line: the loaded lines, each followed
/// by a line feed, give back the text, less each carriage return that stood
/// just before a line feed, and with a line feed added where the text did not
/// end in one. No loaded line holds a line feed.
pub proof fn lemma_lines_give_back_text(t: Seq<char>)
    ensures
        with_feeds(text_lines(t)) == if t.len() == 0 || t.last() == '\n' {
            without_crlf(t)
        } else {
            without_crlf(t).push('\n')
        },
        forall|i: int| 0 <= i < text_lines(t).len() ==> no_feed(#[trigger] text_lines(t)[i]),
{
    lemma_scan_gives_back(t);
    let (d, cu) = scan_lines(t);
    if cu.len() > 0 {
        lemma_with_feeds_push(d, cu);
        assert(with_feeds(d) + cu + seq!['\n'] =~= (with_feeds(d) + cu).push('\n'));
        assert forall|i: int| 0 <= i < text_lines(t).len() implies no_feed(#[trigger] text_lines(t)[i]) by {
            if i < d.len() {
                assert(text_lines(t)[i] == d[i]);
            }
        }
    } else {
        assert(with_feeds(d) + cu =~= with_feeds(d));
    }
}

} // verus!
