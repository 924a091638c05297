//! Loading a text blob into the line buffer and serializing it back.

use vstd::prelude::*;
use crate::chars::is_space_char;
use crate::chars::check_space;
use crate::editor::Kiro;
use crate::editor::Cursor;
use crate::editor::buf_view;

verus! {

/// The lines of `pre + rest` split at every line break, where `pre` is
/// text already read from the current line: the split of `rest` with the
/// first line continuing `pre`. A final line break closes the last line
/// without opening an empty one, and empty text has no lines.
pub open spec fn split_acc(pre: Seq<char>, rest: Seq<char>) -> Seq<Seq<char>>
    decreases rest.len(),
{
    if rest.len() == 0 {
        if pre.len() == 0 {
            Seq::<Seq<char>>::empty()
        } else {
            seq![pre]
        }
    } else if rest[0] == '\n' {
        seq![pre] + split_acc(Seq::<char>::empty(), rest.skip(1))
    } else {
        split_acc(pre.push(rest[0]), rest.skip(1))
    }
}

/// A line with its trailing whitespace removed.
pub open spec fn trim_end_spec(l: Seq<char>) -> Seq<char>
    decreases l.len(),
{
    if l.len() > 0 && is_space_char(l.last()) {
        trim_end_spec(l.drop_last())
    } else {
        l
    }
}

/// Every line with its trailing whitespace removed.
pub open spec fn trim_all(ls: Seq<Seq<char>>) -> Seq<Seq<char>> {
    ls.map_values(|l: Seq<char>| trim_end_spec(l))
}

/// The buffer a text blob loads to: its lines, each with trailing
/// whitespace removed, or a single empty line when the text is empty.
pub open spec fn load_spec(t: Seq<char>) -> Seq<Seq<char>> {
    let raw = split_acc(Seq::<char>::empty(), t);
    if raw.len() == 0 {
        seq![Seq::<char>::empty()]
    } else {
        trim_all(raw)
    }
}

/// The serialized form of a buffer: every line, including the last,
/// followed by a line break.
pub open spec fn serialize_spec(ls: Seq<Seq<char>>) -> Seq<char>
    decreases ls.len(),
{
    if ls.len() == 0 {
        Seq::<char>::empty()
    } else {
        ls.first().push('\n') + serialize_spec(ls.drop_first())
    }
}

proof fn lemma_split_acc_line(pre: Seq<char>, l: Seq<char>, rest: Seq<char>)
    requires
        forall|j: int| 0 <= j < l.len() ==> l[j] != '\n',
    ensures
        split_acc(pre, l.push('\n') + rest) == seq![pre + l] + split_acc(Seq::<char>::empty(), rest),
    decreases l.len(),
{
    let t = l.push('\n') + rest;
    if l.len() == 0 {
        assert(t[0] == '\n');
        assert(t.skip(1) =~~= rest);
        assert(pre + l =~~= pre);
    } else {
        let c = l[0];
        assert(t[0] == c);
        assert(t.skip(1) =~~= l.skip(1).push('\n') + rest);
        assert forall|j: int| 0 <= j < l.skip(1).len() implies l.skip(1)[j] != '\n' by {
            assert(l.skip(1)[j] == l[j + 1]);
        }
        lemma_split_acc_line(pre.push(c), l.skip(1), rest);
        assert(pre.push(c) + l.skip(1) =~~= pre + l);
        assert(split_acc(pre, t) == split_acc(pre.push(c), t.skip(1)));
    }
}

proof fn lemma_split_serialize(ls: Seq<Seq<char>>)
    requires
        forall|i: int, j: int| 0 <= i < ls.len() && 0 <= j < ls[i].len() ==> ls[i][j] != '\n',
    ensures
        split_acc(Seq::<char>::empty(), serialize_spec(ls)) == ls,
    decreases ls.len(),
{
    if ls.len() == 0 {
        assert(split_acc(Seq::<char>::empty(), serialize_spec(ls)) =~~= ls);
    } else {
        let head = ls.first();
        let tail = ls.drop_first();
        lemma_split_acc_line(Seq::<char>::empty(), head, serialize_spec(tail));
        assert forall|i: int, j: int|
            0 <= i < tail.len() && 0 <= j < tail[i].len() implies tail[i][j] != '\n' by {
            assert(tail[i] == ls[i + 1]);
        }
        lemma_split_serialize(tail);
        assert(Seq::<char>::empty() + head =~~= head);
        assert(seq![head] + tail =~~= ls);
    }
}

/// Law: loading the serialized form of a buffer restores the buffer
/// exactly, provided no line holds a line break or trailing whitespace.
pub proof fn lemma_load_of_serialize(ls: Seq<Seq<char>>)
    requires
        ls.len() >= 1,
        forall|i: int, j: int| 0 <= i < ls.len() && 0 <= j < ls[i].len() ==> ls[i][j] != '\n',
        forall|i: int| 0 <= i < ls.len() ==> trim_end_spec(#[trigger] ls[i]) == ls[i],
    ensures
        load_spec(serialize_spec(ls)) == ls,
{
    lemma_split_serialize(ls);
    assert(trim_all(ls) =~= ls);
}

/// Law: a text blob that consists of lines without trailing whitespace,
/// each closed by a line break, is returned unchanged by a load followed
/// by a serialize.
pub proof fn lemma_serialize_of_load(t: Seq<char>, ls: Seq<Seq<char>>)
    requires
        t == serialize_spec(ls),
        ls.len() >= 1,
        forall|i: int, j: int| 0 <= i < ls.len() && 0 <= j < ls[i].len() ==> ls[i][j] != '\n',
        forall|i: int| 0 <= i < ls.len() ==> trim_end_spec(#[trigger] ls[i]) == ls[i],
    ensures
        serialize_spec(load_spec(t)) == t,
{
    lemma_load_of_serialize(ls);
}

proof fn lemma_trim_all_push(ls: Seq<Seq<char>>, l: Seq<char>)
    ensures
        trim_all(ls.push(l)) =~= trim_all(ls).push(trim_end_spec(l)),
{
}

/// Relies on `str::chars`: it yields exactly the characters of the
/// string, in order.
#[verifier::external_body]
fn str_chars(s: &str) -> (r: Vec<char>)
    ensures
        r@ == s@,
{
    s.chars().collect()
}

/// Relies on `String::push`: it appends the character to the string.
#[verifier::external_body]
fn push_char(s: &mut String, c: char)
    ensures
        final(s)@ == old(s)@.push(c),
{
    s.push(c)
}

/// Remove the trailing whitespace of one line.
fn trim_line(line: Vec<char>) -> (r: Vec<char>)
    ensures
        r@ == trim_end_spec(line@),
{
    let mut l = line;
    while l.len() > 0 && check_space(l[l.len() - 1])
        invariant
            trim_end_spec(l@) == trim_end_spec(line@),
        decreases l.len(),
    {
        l.pop();
    }
    l
}

impl Kiro {
    /// Load a text blob, or start with a single empty line when none is
    /// given; the cursor and the scroll offset return to the origin.
    pub fn open(&mut self, text: Option<&str>)
        ensures
            final(self)@.lines == (match text {
                Some(t) => load_spec(t@),
                None => seq![Seq::<char>::empty()],
            }),
            final(self)@.row == 0,
            final(self)@.col == 0,
            final(self)@.off == 0,
            final(self)@.wf(),
    {
        let mut buf: Vec<Vec<char>> = Vec::new();
        match text {
            None => {
                buf.push(Vec::new());
                proof {
                    assert(buf_view(buf) =~~= seq![Seq::<char>::empty()]);
                }
            },
            Some(t) => {
                let cs = str_chars(t);
                let ghost whole: Seq<char> = cs@;
                let mut cur: Vec<char> = Vec::new();
                let ghost mut raw: Seq<Seq<char>> = Seq::<Seq<char>>::empty();
                let mut k: usize = 0;
                proof {
                    assert(whole.skip(0) =~~= whole);
                    assert(raw + split_acc(cur@, whole) =~~= split_acc(Seq::<char>::empty(), whole));
                    assert(buf_view(buf) =~~= trim_all(raw));
                }
                while k < cs.len()
                    invariant
                        k <= cs@.len(),
                        cs@ == whole,
                        split_acc(Seq::<char>::empty(), whole) == raw + split_acc(
                            cur@,
                            whole.skip(k as int),
                        ),
                        buf_view(buf) == trim_all(raw),
                    decreases cs@.len() - k,
                {
                    let c = cs[k];
                    proof {
                        assert(whole.skip(k as int)[0] == c);
                        assert(whole.skip(k as int).skip(1) =~~= whole.skip(k as int + 1));
                    }
                    if c == '\n' {
                        let ghost raw0 = raw;
                        let ghost cur0 = cur@;
                        let ghost bv0 = buf_view(buf);
                        proof {
                            raw = raw.push(cur@);
                            assert(split_acc(cur@, whole.skip(k as int)) == seq![cur@] + split_acc(
                                Seq::<char>::empty(),
                                whole.skip(k as int + 1),
                            ));
                            assert(raw0 + (seq![cur@] + split_acc(
                                Seq::<char>::empty(),
                                whole.skip(k as int + 1),
                            )) =~~= raw + split_acc(Seq::<char>::empty(), whole.skip(k as int + 1)));
                        }
                        let closed = trim_line(cur);
                        buf.push(closed);
                        cur = Vec::new();
                        proof {
                            assert(buf_view(buf) =~= bv0.push(closed@));
                            lemma_trim_all_push(raw0, cur0);
                        }
                    } else {
                        cur.push(c);
                    }
                    k = k + 1;
                }
                proof {
                    assert(whole.skip(k as int) =~~= Seq::<char>::empty());
                }
                if cur.len() > 0 {
                    let ghost raw0 = raw;
                    let ghost cur0 = cur@;
                    let ghost bv0 = buf_view(buf);
                    proof {
                        raw = raw.push(cur@);
                        assert(split_acc(cur@, whole.skip(k as int)) == seq![cur@]);
                        assert(raw0 + seq![cur@] =~~= raw);
                    }
                    let closed = trim_line(cur);
                    buf.push(closed);
                    proof {
                        assert(buf_view(buf) =~= bv0.push(closed@));
                        lemma_trim_all_push(raw0, cur0);
                    }
                } else {
                    proof {
                        assert(split_acc(cur@, whole.skip(k as int)) =~~= Seq::<Seq<char>>::empty());
                        assert(raw + Seq::<Seq<char>>::empty() =~~= raw);
                    }
                }
                proof {
                    assert(raw == split_acc(Seq::<char>::empty(), whole));
                }
                if buf.len() == 0 {
                    buf.push(Vec::new());
                    proof {
                        assert(trim_all(raw).len() == 0);
                        assert(raw.len() == 0);
                        assert(buf_view(buf) =~~= seq![Seq::<char>::empty()]);
                    }
                } else {
                    proof {
                        assert(raw.len() > 0);
                    }
                }
            },
        }
        self.buffer = buf;
        self.cursor = Cursor { row: 0, column: 0 };
        self.row_offset = 0;
    }

    /// The buffer as one text blob, every line followed by a line break.
    pub fn serialize(&self) -> (r: String)
        ensures
            r@ == serialize_spec(self@.lines),
    {
        let mut out = String::new();
        let mut i: usize = 0;
        proof {
            assert(self@.lines.skip(0) =~~= self@.lines);
            assert(out@ + serialize_spec(self@.lines) =~~= serialize_spec(self@.lines));
        }
        while i < self.buffer.len()
            invariant
                i <= self.buffer@.len(),
                out@ + serialize_spec(self@.lines.skip(i as int)) == serialize_spec(self@.lines),
            decreases self.buffer@.len() - i,
        {
            let ghost pre = out@;
            let line = &self.buffer[i];
            let mut j: usize = 0;
            while j < line.len()
                invariant
                    j <= line@.len(),
                    out@ == pre + line@.take(j as int),
                decreases line@.len() - j,
            {
                push_char(&mut out, line[j]);
                proof {
                    assert(line@.take(j as int).push(line@[j as int]) =~~= line@.take(j as int + 1));
                    assert(out@ =~~= pre + line@.take(j as int + 1));
                }
                j = j + 1;
            }
            push_char(&mut out, '\n');
            proof {
                let lines = self@.lines;
                assert(line@.take(j as int) =~~= line@);
                assert(lines.skip(i as int).first() == lines[i as int]);
                assert(lines.skip(i as int).drop_first() =~~= lines.skip(i as int + 1));
                assert(out@ =~~= pre + lines[i as int].push('\n'));
                assert(out@ + serialize_spec(lines.skip(i as int + 1)) =~~= pre + serialize_spec(
                    lines.skip(i as int),
                ));
            }
            i = i + 1;
        }
        proof {
            assert(self@.lines.skip(i as int) =~~= Seq::<Seq<char>>::empty());
            assert(out@ =~~= serialize_spec(self@.lines));
        }
        out
    }
}

} // verus!
