use vstd::prelude::*;

verus! {

/// Where the line that starts at `i` ends: at the first line feed from `i` on, or at the
/// end of the text.
pub open spec fn line_end(text: Seq<u8>, i: int) -> int
    decreases text.len() - i,
{
    if i >= text.len() {
        text.len() as int
    } else if text[i] == 10 {
        i
    } else {
        line_end(text, i + 1)
    }
}

/// The line from `i` up to its end at `e`, without the carriage return in front of a
/// line feed.
pub open spec fn line_at(text: Seq<u8>, i: int, e: int) -> Seq<u8> {
    if e < text.len() && i < e && text[e - 1] == 13 {
        text.subrange(i, e - 1)
    } else {
        text.subrange(i, e)
    }
}

/// The lines of the text from position `i` on, without their line ends. A line ends with
/// a line feed or with a carriage return and a line feed. What stands behind the last line
/// feed is a line too, unless nothing stands there.
pub open spec fn lines_from(text: Seq<u8>, i: int) -> Seq<Seq<u8>>
    decreases text.len() - i,
{
    if i < 0 || i >= text.len() {
        Seq::empty()
    } else {
        proof {
            end_is_behind(text, i);
        }
        if line_end(text, i) >= text.len() {
            seq![line_at(text, i, line_end(text, i))]
        } else {
            seq![line_at(text, i, line_end(text, i))] + lines_from(text, line_end(text, i) + 1)
        }
    }
}

/// A line of the preprocessor: one that starts with `#`.
pub open spec fn is_directive(line: Seq<u8>) -> bool {
    line.len() > 0 && line[0] == 35
}

/// The lines that are no lines of the preprocessor.
pub open spec fn kept(lines: Seq<Seq<u8>>) -> Seq<Seq<u8>>
    decreases lines.len(),
{
    if lines.len() == 0 {
        Seq::empty()
    } else if is_directive(lines.last()) {
        kept(lines.drop_last())
    } else {
        kept(lines.drop_last()).push(lines.last())
    }
}

/// The lines with a line feed between each two of them.
pub open spec fn joined(lines: Seq<Seq<u8>>) -> Seq<u8>
    decreases lines.len(),
{
    if lines.len() == 0 {
        Seq::empty()
    } else if lines.len() == 1 {
        lines[0]
    } else {
        joined(lines.drop_last()).push(10) + lines.last()
    }
}

/// The end of a line is not in front of its start, and not behind the end of the text;
/// up to it there is no line feed, and at it there is one unless the text ends there.
pub proof fn end_is_behind(text: Seq<u8>, i: int)
    requires
        0 <= i <= text.len(),
    ensures
        i <= line_end(text, i) <= text.len(),
        forall|k: int| i <= k < line_end(text, i) ==> text[k] != 10,
        line_end(text, i) < text.len() ==> text[line_end(text, i)] == 10,
    decreases text.len() - i,
{
    if i < text.len() && text[i] != 10 {
        end_is_behind(text, i + 1);
    }
}

/// The source without the lines of the preprocessor: the lines of `content` that do not
/// start with `#`, with a line feed between each two of them and none at the end.
pub fn without_directives(content: &[u8]) -> (r: Vec<u8>)
    ensures
        r@ == joined(kept(lines_from(content@, 0))),
{
    let mut out: Vec<u8> = Vec::new();
    let mut any = false;
    let mut i: usize = 0;
    let ghost mut done: Seq<Seq<u8>> = Seq::empty();
    while i < content.len()
        invariant
            i <= content@.len(),
            lines_from(content@, 0) == done + lines_from(content@, i as int),
            out@ == joined(kept(done)),
            any == (kept(done).len() > 0),
        decreases content.len() - i,
    {
        let mut e: usize = i;
        while e < content.len() && content[e] != 10
            invariant
                i <= e <= content@.len(),
                line_end(content@, i as int) == line_end(content@, e as int),
            decreases content.len() - e,
        {
            e += 1;
        }
        proof {
            end_is_behind(content@, i as int);
        }
        let stop: usize = if e < content.len() && i < e && content[e - 1] == 13 {
            e - 1
        } else {
            e
        };
        let ghost line = line_at(content@, i as int, e as int);
        assert(line == content@.subrange(i as int, stop as int));
        let directive = i < stop && content[i] == 35;
        assert(directive == is_directive(line));
        proof {
            assert(done.push(line).drop_last() =~= done);
            assert(lines_from(content@, 0) =~= done.push(line) + lines_from(
                content@,
                if e < content@.len() {
                    e + 1
                } else {
                    e as int
                },
            ));
        }
        if !directive {
            if any {
                out.push(10);
            }
            let ghost before = out@;
            let mut k: usize = i;
            while k < stop
                invariant
                    i <= k <= stop <= content@.len(),
                    out@ == before + content@.subrange(i as int, k as int),
                decreases stop - k,
            {
                out.push(content[k]);
                proof {
                    assert(content@.subrange(i as int, k + 1) =~= content@.subrange(
                        i as int,
                        k as int,
                    ).push(content@[k as int]));
                }
                k += 1;
            }
            proof {
                let more = kept(done).push(line);
                assert(more.drop_last() =~= kept(done));
                assert(kept(done.push(line)) == more);
                if kept(done).len() == 0 {
                    assert(before =~= Seq::<u8>::empty());
                    assert(out@ =~= line);
                }
            }
            any = true;
        }
        proof {
            done = done.push(line);
        }
        if e < content.len() {
            i = e + 1;
        } else {
            i = e;
        }
    }
    proof {
        assert(lines_from(content@, 0) =~= done);
    }
    out
}

} // verus!
