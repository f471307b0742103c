//! Splitting a text into bounded chunks.
//!
//! The text is cut at newline characters; every line is trimmed of white
//! space at both ends; the trimmed lines are read as one stream of
//! characters, and the stream is wrapped greedily: a chunk is closed as soon
//! as the next character would bring its UTF-8 size to the limit or beyond.
use vstd::prelude::*;

use crate::text::{byte_len, byte_len_is_utf8_len, char_width, is_white, is_white_space, utf8_width};
use vstd::utf8::encode_utf8;

verus! {

/// The lines of `t`, cut at every `'\n'` (there is always at least one).
pub open spec fn split_lines(t: Seq<char>) -> Seq<Seq<char>>
    decreases t.len(),
{
    if t.len() == 0 {
        seq![Seq::empty()]
    } else {
        let r = split_lines(t.drop_last());
        if t.last() == '\n' {
            r.push(Seq::empty())
        } else {
            r.update(r.len() - 1, r.last().push(t.last()))
        }
    }
}

/// `l` without its leading white space.
pub open spec fn trim_start(l: Seq<char>) -> Seq<char>
    decreases l.len(),
{
    if l.len() > 0 && is_white_space(l[0]) {
        trim_start(l.drop_first())
    } else {
        l
    }
}

/// `l` without its trailing white space.
pub open spec fn trim_end(l: Seq<char>) -> Seq<char>
    decreases l.len(),
{
    if l.len() > 0 && is_white_space(l.last()) {
        trim_end(l.drop_last())
    } else {
        l
    }
}

/// `l` without white space at either end.
pub open spec fn trim(l: Seq<char>) -> Seq<char> {
    trim_end(trim_start(l))
}

/// True when `l` holds nothing but white space.
pub open spec fn is_blank(l: Seq<char>) -> bool {
    forall|i: int| 0 <= i < l.len() ==> is_white_space(#[trigger] l[i])
}

/// The pieces of `ls` written one after the other.
pub open spec fn concat(ls: Seq<Seq<char>>) -> Seq<char>
    decreases ls.len(),
{
    if ls.len() == 0 {
        Seq::empty()
    } else {
        concat(ls.drop_last()) + ls.last()
    }
}

/// The trimmed lines of `ls`.
pub open spec fn trim_all(ls: Seq<Seq<char>>) -> Seq<Seq<char>> {
    ls.map_values(|l: Seq<char>| trim(l))
}

/// The characters that the chunker wraps: the trimmed lines of `t`, joined.
pub open spec fn stream(t: Seq<char>) -> Seq<char> {
    concat(trim_all(split_lines(t)))
}

/// Closed chunks and the open buffer after one more character.
pub open spec fn wrap_step(
    st: (Seq<Seq<char>>, Seq<char>),
    c: char,
    limit: nat,
) -> (Seq<Seq<char>>, Seq<char>) {
    if byte_len(st.1) + utf8_width(c) >= limit {
        (if st.1.len() > 0 {
            st.0.push(st.1)
        } else {
            st.0
        }, seq![c])
    } else {
        (st.0, st.1.push(c))
    }
}

/// Closed chunks and the open buffer after the characters of `s`.
pub open spec fn wrap_state(s: Seq<char>, limit: nat) -> (Seq<Seq<char>>, Seq<char>)
    decreases s.len(),
{
    if s.len() == 0 {
        (Seq::empty(), Seq::empty())
    } else {
        wrap_step(wrap_state(s.drop_last(), limit), s.last(), limit)
    }
}

/// The chunks of a character stream: the closed ones, then the open buffer
/// unless it is blank.
pub open spec fn wrap(s: Seq<char>, limit: nat) -> Seq<Seq<char>> {
    let st = wrap_state(s, limit);
    if is_blank(st.1) {
        st.0
    } else {
        st.0.push(st.1)
    }
}

/// The chunk texts of `t` under `limit`.
pub open spec fn chunk_texts(t: Seq<char>, limit: nat) -> Seq<Seq<char>> {
    wrap(stream(t), limit)
}

/// The test that a chunk is worth persisting: it is not blank.
pub open spec fn not_blank() -> spec_fn(Seq<char>) -> bool {
    |c: Seq<char>| !is_blank(c)
}

/// The chunk texts of `t` that are not blank: those that ingestion persists.
pub open spec fn kept_chunk_texts(t: Seq<char>, limit: nat) -> Seq<Seq<char>> {
    chunk_texts(t, limit).filter(not_blank())
}

/// Relies on `String::push`: the character is appended at the end.
#[verifier::external_body]
fn push_char(s: &mut String, c: char)
    ensures
        final(s)@ == old(s)@.push(c),
{
    s.push(c);
}

/// The characters of `text`.
fn chars_of(text: &str) -> (r: Vec<char>)
    ensures
        r@ == text@,
{
    let mut r: Vec<char> = Vec::new();
    for c in it: text.chars()
        invariant
            it.seq() == text@,
            r@ == text@.subrange(0, it.index() as int),
    {
        r.push(c);
        proof {
            assert(r@ =~= text@.subrange(0, it.index() + 1));
        }
    }
    assert(r@ =~= text@);
    r
}

/// The lines of `text`, as character vectors.
fn lines_of(text: &str) -> (r: Vec<Vec<char>>)
    ensures
        r@.len() == split_lines(text@).len(),
        forall|j: int| 0 <= j < r@.len() ==> #[trigger] r@[j]@ == split_lines(text@)[j],
{
    let cs = chars_of(text);
    let n = cs.len();
    let mut lines: Vec<Vec<char>> = Vec::new();
    lines.push(Vec::new());
    let mut i: usize = 0;
    proof {
        assert(text@.subrange(0, 0) =~= Seq::<char>::empty());
    }
    while i < n
        invariant
            n == text@.len(),
            cs@ == text@,
            0 <= i <= n,
            lines@.len() == split_lines(text@.subrange(0, i as int)).len(),
            lines@.len() >= 1,
            forall|j: int|
                0 <= j < lines@.len() ==> #[trigger] lines@[j]@ == split_lines(
                    text@.subrange(0, i as int),
                )[j],
        decreases n - i,
    {
        let c = cs[i];
        proof {
            assert(text@.subrange(0, i + 1).drop_last() =~= text@.subrange(0, i as int));
        }
        if c == '\n' {
            lines.push(Vec::new());
        } else {
            let last = lines.len() - 1;
            let mut cur = lines.remove(last);
            cur.push(c);
            lines.push(cur);
        }
        i = i + 1;
        proof {
            let prev = split_lines(text@.subrange(0, i - 1));
            let now = split_lines(text@.subrange(0, i as int));
            assert(now.len() == lines@.len());
            assert forall|j: int| 0 <= j < lines@.len() implies #[trigger] lines@[j]@ == now[j] by {
                if c != '\n' && j == lines@.len() - 1 {
                    assert(lines@[j]@ =~= now[j]);
                }
            }
        }
    }
    proof {
        assert(text@.subrange(0, n as int) =~= text@);
    }
    lines
}

/// The bounds `(a, b)` of `l` without white space at either end.
fn trim_bounds(l: &Vec<char>) -> (r: (usize, usize))
    ensures
        r.0 <= r.1 <= l@.len(),
        trim(l@) == l@.subrange(r.0 as int, r.1 as int),
{
    let n = l.len();
    let mut a: usize = 0;
    proof {
        assert(l@.subrange(0, n as int) =~= l@);
    }
    while a < n && is_white(l[a])
        invariant
            n == l@.len(),
            a <= n,
            trim_start(l@) == trim_start(l@.subrange(a as int, n as int)),
        decreases n - a,
    {
        proof {
            assert(l@.subrange(a as int, n as int).drop_first() =~= l@.subrange(a + 1, n as int));
        }
        a = a + 1;
    }
    let mut b: usize = n;
    while b > a && is_white(l[b - 1])
        invariant
            n == l@.len(),
            a <= b <= n,
            trim(l@) == trim_end(l@.subrange(a as int, b as int)),
        decreases b - a,
    {
        proof {
            assert(l@.subrange(a as int, b as int).drop_last() =~= l@.subrange(a as int, b - 1));
        }
        b = b - 1;
    }
    (a, b)
}

/// The chunk texts of `text`, each at most `limit` bytes unless a single
/// character is wider.
pub fn split_into_chunks(text: &str, limit: usize) -> (r: Vec<String>)
    requires
        limit >= 1,
    ensures
        r@.len() == chunk_texts(text@, limit as nat).len(),
        forall|i: int| 0 <= i < r@.len() ==> #[trigger] r@[i]@ == chunk_texts(text@, limit as nat)[i],
{
    let ghost lim = limit as nat;
    let lines = lines_of(text);
    let ghost trimmed = trim_all(split_lines(text@));
    let mut done: Vec<String> = Vec::new();
    let mut buf = String::new();
    let mut buf_len: usize = 0;
    let mut j: usize = 0;
    proof {
        assert(trimmed.subrange(0, 0) =~= Seq::<Seq<char>>::empty());
    }
    while j < lines.len()
        invariant
            lines@.len() == split_lines(text@).len(),
            forall|k: int| 0 <= k < lines@.len() ==> #[trigger] lines@[k]@ == split_lines(text@)[k],
            trimmed == trim_all(split_lines(text@)),
            j <= lines@.len(),
            limit >= 1,
            lim == limit as nat,
            buf_len as nat == byte_len(buf@),
            buf_len == 0 <==> buf@.len() == 0,
            byte_len(buf@) < lim || buf@.len() == 1,
            done@.len() == wrap_state(concat(trimmed.subrange(0, j as int)), lim).0.len(),
            forall|k: int| 0 <= k < done@.len() ==> #[trigger] done@[k]@ == wrap_state(
                concat(trimmed.subrange(0, j as int)), lim).0[k],
            buf@ == wrap_state(concat(trimmed.subrange(0, j as int)), lim).1,
        decreases lines@.len() - j,
    {
        let line = &lines[j];
        let (a, b) = trim_bounds(line);
        let ghost before = concat(trimmed.subrange(0, j as int));
        proof {
            assert(trimmed[j as int] == line@.subrange(a as int, b as int));
            assert(before + line@.subrange(a as int, a as int) =~= before);
        }
        let mut k: usize = a;
        while k < b
            invariant
                a <= k <= b <= line@.len(),
                limit >= 1,
                lim == limit as nat,
                buf_len as nat == byte_len(buf@),
                buf_len == 0 <==> buf@.len() == 0,
                byte_len(buf@) < lim || buf@.len() == 1,
                done@.len() == wrap_state(before + line@.subrange(a as int, k as int), lim).0.len(),
                forall|m: int| 0 <= m < done@.len() ==> #[trigger] done@[m]@ == wrap_state(
                    before + line@.subrange(a as int, k as int), lim).0[m],
                buf@ == wrap_state(before + line@.subrange(a as int, k as int), lim).1,
            decreases b - k,
        {
            let c = line[k];
            let w = char_width(c);
            let ghost s0 = before + line@.subrange(a as int, k as int);
            let ghost s1 = before + line@.subrange(a as int, k + 1);
            proof {
                assert(s1.drop_last() =~= s0);
                assert(s1.last() == c);
            }
            if w >= limit || buf_len >= limit - w {
                if buf_len > 0 {
                    done.push(buf);
                }
                buf = String::new();
                push_char(&mut buf, c);
                buf_len = w;
                proof {
                    assert(buf@ =~= seq![c]);
                    assert(buf@.drop_last() =~= Seq::<char>::empty());
                    assert(byte_len(buf@.drop_last()) == 0);
                    assert(buf@.last() == c);
                    assert(byte_len(buf@) == w);
                    let st = wrap_state(s0, lim);
                    if st.1.len() > 0 {
                        assert(wrap_state(s1, lim).0 =~= st.0.push(st.1));
                        assert forall|m: int| 0 <= m < done@.len() implies #[trigger] done@[m]@
                            == wrap_state(s1, lim).0[m] by {}
                    }
                }
            } else {
                push_char(&mut buf, c);
                buf_len = buf_len + w;
                proof {
                    assert(buf@.drop_last() =~= wrap_state(s0, lim).1);
                }
            }
            k = k + 1;
        }
        proof {
            assert(trimmed.subrange(0, j + 1).drop_last() =~= trimmed.subrange(0, j as int));
            assert(concat(trimmed.subrange(0, j + 1)) == before + trimmed[j as int]);
        }
        j = j + 1;
    }
    proof {
        assert(trimmed.subrange(0, j as int) =~= trimmed);
    }
    if !is_blank_str(&buf) {
        done.push(buf);
    }
    done
}

/// Whether `s` holds nothing but white space.
pub fn is_blank_str(s: &String) -> (r: bool)
    ensures
        r == is_blank(s@),
{
    let cs = chars_of(s.as_str());
    let n = cs.len();
    let mut i: usize = 0;
    while i < n
        invariant
            n == s@.len(),
            cs@ == s@,
            i <= n,
            forall|m: int| 0 <= m < i ==> is_white_space(#[trigger] s@[m]),
        decreases n - i,
    {
        if !is_white(cs[i]) {
            return false;
        }
        i = i + 1;
    }
    true
}

/// True when every chunk of `cs` is non-empty and under `limit` bytes, or a
/// single character.
pub open spec fn chunks_bounded(cs: Seq<Seq<char>>, limit: nat) -> bool {
    forall|i: int|
        0 <= i < cs.len() ==> (#[trigger] cs[i]).len() > 0 && (byte_len(cs[i]) < limit
            || cs[i].len() == 1)
}

proof fn lemma_concat_push(ls: Seq<Seq<char>>, l: Seq<char>)
    ensures
        concat(ls.push(l)) == concat(ls) + l,
{
    assert(ls.push(l).drop_last() =~= ls);
}

proof fn lemma_wrap_state(s: Seq<char>, limit: nat)
    requires
        limit >= 1,
    ensures
        chunks_bounded(wrap_state(s, limit).0, limit),
        byte_len(wrap_state(s, limit).1) < limit || wrap_state(s, limit).1.len() == 1,
        concat(wrap_state(s, limit).0) + wrap_state(s, limit).1 == s,
        s.len() > 0 ==> wrap_state(s, limit).1.len() > 0 && wrap_state(s, limit).1.last()
            == s.last(),
    decreases s.len(),
{
    if s.len() == 0 {
        assert(concat(Seq::<Seq<char>>::empty()) + Seq::<char>::empty() =~= s);
    } else {
        let p = s.drop_last();
        let c = s.last();
        lemma_wrap_state(p, limit);
        let st = wrap_state(p, limit);
        let nx = wrap_state(s, limit);
        assert(nx == wrap_step(st, c, limit));
        assert(p.push(c) =~= s);
        if byte_len(st.1) + utf8_width(c) >= limit {
            assert(seq![c].drop_last() =~= Seq::<char>::empty());
            assert(byte_len(Seq::<char>::empty()) == 0);
            if st.1.len() > 0 {
                lemma_concat_push(st.0, st.1);
                assert(concat(nx.0) + nx.1 =~= s);
            } else {
                assert(concat(nx.0) + nx.1 =~= s);
            }
        } else {
            assert(st.1.push(c).drop_last() =~= st.1);
            assert(concat(nx.0) + nx.1 =~= s);
        }
    }
}

proof fn lemma_trim_end_last(l: Seq<char>)
    ensures
        trim_end(l).len() == 0 || !is_white_space(trim_end(l).last()),
    decreases l.len(),
{
    if l.len() > 0 && is_white_space(l.last()) {
        lemma_trim_end_last(l.drop_last());
    }
}

proof fn lemma_concat_last(ls: Seq<Seq<char>>)
    requires
        forall|i: int|
            0 <= i < ls.len() ==> (#[trigger] ls[i]).len() == 0 || !is_white_space(ls[i].last()),
    ensures
        concat(ls).len() == 0 || !is_white_space(concat(ls).last()),
    decreases ls.len(),
{
    if ls.len() > 0 {
        let p = ls.drop_last();
        assert forall|i: int| 0 <= i < p.len() implies (#[trigger] p[i]).len() == 0
            || !is_white_space(p[i].last()) by {
            assert(p[i] == ls[i]);
        }
        lemma_concat_last(p);
        assert(ls[ls.len() - 1] == ls.last());
    }
}

proof fn lemma_stream_last(t: Seq<char>)
    ensures
        stream(t).len() == 0 || !is_white_space(stream(t).last()),
{
    let ls = trim_all(split_lines(t));
    assert forall|i: int| 0 <= i < ls.len() implies (#[trigger] ls[i]).len() == 0
        || !is_white_space(ls[i].last()) by {
        lemma_trim_end_last(trim_start(split_lines(t)[i]));
    }
    lemma_concat_last(ls);
}

/// Every chunk of a text is non-empty and its UTF-8 size stays under the
/// limit unless the chunk is one character wider than that; the last chunk is
/// never blank; an empty text has no chunks.
pub proof fn chunk_size_law(t: Seq<char>, limit: nat)
    requires
        limit >= 1,
    ensures
        chunks_bounded(chunk_texts(t, limit), limit),
        forall|i: int|
            0 <= i < chunk_texts(t, limit).len() ==> encode_utf8(#[trigger] chunk_texts(t, limit)[i]).len()
                < limit || chunk_texts(t, limit)[i].len() == 1,
        chunk_texts(t, limit).len() > 0 ==> !is_blank(chunk_texts(t, limit).last()),
        t.len() == 0 ==> chunk_texts(t, limit).len() == 0,
{
    let s = stream(t);
    lemma_wrap_state(s, limit);
    let st = wrap_state(s, limit);
    assert forall|i: int| 0 <= i < chunk_texts(t, limit).len() implies encode_utf8(
        #[trigger] chunk_texts(t, limit)[i],
    ).len() < limit || chunk_texts(t, limit)[i].len() == 1 by {
        byte_len_is_utf8_len(chunk_texts(t, limit)[i]);
        if !is_blank(st.1) && i == st.0.len() {
        } else {
            assert(chunk_texts(t, limit)[i] == st.0[i]);
        }
    }
    if !is_blank(st.1) {
        assert(chunk_texts(t, limit) == st.0.push(st.1));
        assert(chunk_texts(t, limit).last() == st.1);
    } else if st.0.len() > 0 {
        lemma_stream_last(t);
        assert(st.1.len() == 0) by {
            if st.1.len() > 0 {
                assert(is_white_space(st.1[st.1.len() - 1]));
            }
        }
        assert(concat(st.0.drop_last().push(st.0.last())) == concat(st.0)) by {
            assert(st.0.drop_last().push(st.0.last()) =~= st.0);
        }
        lemma_concat_push(st.0.drop_last(), st.0.last());
        assert(s == concat(st.0.drop_last()) + st.0.last()) by {
            assert(concat(st.0) + st.1 =~= concat(st.0));
        }
        assert(s.last() == st.0.last().last());
        assert(!is_blank(st.0.last())) by {
            assert(!is_white_space(st.0.last()[st.0.last().len() - 1]));
        }
    }
    if t.len() == 0 {
        assert(split_lines(t) == seq![Seq::<char>::empty()]);
        assert(trim(Seq::<char>::empty()) == Seq::<char>::empty());
        let ls = trim_all(split_lines(t));
        assert(ls =~= seq![Seq::<char>::empty()]);
        assert(ls.drop_last() =~= Seq::<Seq<char>>::empty());
        assert(concat(ls.drop_last()) == Seq::<char>::empty());
        assert(ls.last() == Seq::<char>::empty());
        assert(concat(ls) =~= Seq::<char>::empty());
        assert(wrap_state(Seq::<char>::empty(), limit).1 == Seq::<char>::empty());
    }
}

/// The chunks of a text, written one after the other, give back its trimmed
/// lines joined: no character is dropped or repeated.
pub proof fn chunk_concat_law(t: Seq<char>, limit: nat)
    requires
        limit >= 1,
    ensures
        concat(chunk_texts(t, limit)) == stream(t),
{
    let s = stream(t);
    lemma_wrap_state(s, limit);
    lemma_stream_last(t);
    let st = wrap_state(s, limit);
    if !is_blank(st.1) {
        lemma_concat_push(st.0, st.1);
    } else {
        assert(st.1.len() == 0) by {
            if st.1.len() > 0 {
                assert(is_white_space(st.1[st.1.len() - 1]));
            }
        }
        assert(concat(st.0) + st.1 =~= concat(st.0));
    }
}

/// Every chunk that ingestion persists is non-blank, and its UTF-8 size
/// stays under the limit unless it is a single character wider than that.
pub proof fn kept_chunk_law(t: Seq<char>, limit: nat)
    requires
        limit >= 1,
    ensures
        forall|i: int|
            0 <= i < kept_chunk_texts(t, limit).len() ==> {
                &&& !is_blank(#[trigger] kept_chunk_texts(t, limit)[i])
                &&& kept_chunk_texts(t, limit)[i].len() > 0
                &&& encode_utf8(kept_chunk_texts(t, limit)[i]).len() < limit
                    || kept_chunk_texts(t, limit)[i].len() == 1
            },
{
    let cs = chunk_texts(t, limit);
    let kept = kept_chunk_texts(t, limit);
    chunk_size_law(t, limit);
    assert forall|i: int| 0 <= i < kept.len() implies {
        &&& !is_blank(#[trigger] kept[i])
        &&& kept[i].len() > 0
        &&& encode_utf8(kept[i]).len() < limit || kept[i].len() == 1
    } by {
        cs.lemma_filter_pred(not_blank(), i);
        assert(kept.contains(kept[i]));
        cs.lemma_filter_contains_rev(not_blank(), kept[i]);
        let j = choose|j: int| 0 <= j < cs.len() && cs[j] == kept[i];
        assert(cs[j].len() > 0);
    }
}

} // verus!
