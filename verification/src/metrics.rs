//! Labeling of metrics text: stamping every sample line of an exposition
//! text with the job and instance labels before it is pushed.

use vstd::prelude::*;

verus! {

broadcast use vstd::string::axiom_spec_iter;

/// Index of the first occurrence of `c` in `s`, or `s.len()` if `s` does
/// not hold `c`.
pub open spec fn first_occurrence(s: Seq<char>, c: char) -> nat
    decreases s.len(),
{
    if s.len() == 0 {
        0
    } else if s[0] == c {
        0
    } else {
        (1 + first_occurrence(s.drop_first(), c)) as nat
    }
}

/// The first occurrence is the unique position with nothing equal before
/// it, clamped to the length.
pub proof fn lemma_first_occurrence_unique(s: Seq<char>, c: char, i: int)
    requires
        0 <= i <= s.len(),
        forall|j: int| 0 <= j < i ==> s[j] != c,
        i < s.len() ==> s[i] == c,
    ensures
        first_occurrence(s, c) == i,
    decreases s.len(),
{
    if s.len() == 0 {
    } else if s[0] == c {
        assert(i == 0);
    } else {
        assert(i >= 1) by {
            if i == 0 {
                assert(s[0] == c);
            }
        }
        lemma_first_occurrence_unique(s.drop_first(), c, i - 1);
    }
}

/// The line before the line feed, with a carriage return directly before
/// the line feed stripped as well.
pub open spec fn strip_cr(l: Seq<char>) -> Seq<char> {
    if l.len() > 0 && l.last() == '\r' {
        l.drop_last()
    } else {
        l
    }
}

/// The lines of `s`, split at line feeds or carriage-return line feeds,
/// the final line ending optional.
pub open spec fn split_lines(s: Seq<char>) -> Seq<Seq<char>>
    decreases s.len(),
{
    if s.len() == 0 {
        Seq::empty()
    } else {
        let p = first_occurrence(s, '\n');
        if p < s.len() {
            seq![strip_cr(s.take(p as int))] + split_lines(s.skip(p as int + 1))
        } else {
            seq![s]
        }
    }
}

/// The lines joined back with a line feed between consecutive lines.
pub open spec fn join_lines(ls: Seq<Seq<char>>) -> Seq<char>
    decreases ls.len(),
{
    if ls.len() == 0 {
        Seq::empty()
    } else if ls.len() == 1 {
        ls[0]
    } else {
        ls[0] + seq!['\n'] + join_lines(ls.drop_first())
    }
}

/// Joining after appending one more line appends a line feed and the line,
/// except to an empty listing.
pub proof fn lemma_join_push(ls: Seq<Seq<char>>, x: Seq<char>)
    ensures
        join_lines(ls.push(x)) == if ls.len() == 0 {
            x
        } else {
            join_lines(ls) + seq!['\n'] + x
        },
    decreases ls.len(),
{
    if ls.len() == 0 {
        assert(ls.push(x)[0] == x);
    } else {
        assert(ls.push(x).drop_first() =~= ls.drop_first().push(x));
        lemma_join_push(ls.drop_first(), x);
        assert(ls.push(x)[0] == ls[0]);
        if ls.len() == 1 {
            assert(join_lines(ls) == ls[0]);
        }
    }
}

/// The label text stamped into each sample line.
pub open spec fn label_pairs(job: Seq<char>, instance: Seq<char>) -> Seq<char> {
    seq!['j', 'o', 'b', '=', '"'] + job + seq!['"', ',', ' '] + seq![
        'i',
        'n',
        's',
        't',
        'a',
        'n',
        'c',
        'e',
        '=',
        '"',
    ] + instance + seq!['"']
}

/// One line after labeling: comment lines pass through; a line with a
/// label brace gets the labels first inside the brace; a bare sample line
/// gets a fresh brace pair before the first space; anything else passes
/// through.
pub open spec fn transformed_line(l: Seq<char>, job: Seq<char>, instance: Seq<char>) -> Seq<char> {
    let brace = first_occurrence(l, '{');
    let space = first_occurrence(l, ' ');
    if l.len() > 0 && l[0] == '#' {
        l
    } else if brace < l.len() {
        l.take(brace as int + 1) + label_pairs(job, instance) + seq![',', ' '] + l.skip(brace as int + 1)
    } else if space < l.len() {
        l.take(space as int) + seq!['{'] + label_pairs(job, instance) + seq!['}'] + l.skip(
            space as int,
        )
    } else {
        l
    }
}

/// The whole exposition text after labeling: every line transformed, the
/// lines joined back with line feeds.
pub open spec fn spec_inject(metrics: Seq<char>, job: Seq<char>, instance: Seq<char>) -> Seq<
    char,
> {
    join_lines(
        split_lines(metrics).map_values(|l: Seq<char>| transformed_line(l, job, instance)),
    )
}

/// The characters of `s`, in order.
fn str_to_chars(s: &str) -> (r: Vec<char>)
    ensures
        r@ == s@,
{
    let mut r: Vec<char> = Vec::new();
    for c in it: s.chars()
        invariant
            it.seq() == s@,
            r@ == it.seq().subrange(0, it.index() as int),
    {
        r.push(c);
    }
    proof {
        assert(r@ =~= s@);
    }
    r
}

/// Appends `src[from..to]` to `out`.
fn push_range(out: &mut Vec<char>, src: &Vec<char>, from: usize, to: usize)
    requires
        from <= to,
        to <= src@.len(),
    ensures
        final(out)@ == old(out)@ + src@.subrange(from as int, to as int),
{
    let mut i = from;
    while i < to
        invariant
            from <= i <= to,
            to <= src@.len(),
            out@ == old(out)@ + src@.subrange(from as int, i as int),
        decreases to - i,
    {
        out.push(src[i]);
        proof {
            assert(src@.subrange(from as int, i + 1) =~= src@.subrange(from as int, i as int).push(
                src@[i as int],
            ));
        }
        i = i + 1;
    }
}

/// Index of the first occurrence of `c` in `v` at or after `start`, or the
/// length if there is none.
fn find_from(v: &Vec<char>, start: usize, c: char) -> (r: usize)
    requires
        start <= v@.len(),
    ensures
        start <= r <= v@.len(),
        r - start == first_occurrence(v@.skip(start as int), c),
{
    let n = v.len();
    let mut i = start;
    while i < n
        invariant
            start <= i <= n,
            n == v@.len(),
            forall|j: int| start <= j < i ==> v@[j] != c,
        decreases n - i,
    {
        if v[i] == c {
            proof {
                let suffix = v@.skip(start as int);
                assert forall|j: int| 0 <= j < i - start implies suffix[j] != c by {
                    assert(suffix[j] == v@[start + j]);
                }
                assert(suffix[i - start] == c);
                lemma_first_occurrence_unique(suffix, c, i - start);
            }
            return i;
        }
        i = i + 1;
    }
    proof {
        let suffix = v@.skip(start as int);
        assert forall|j: int| 0 <= j < suffix.len() implies suffix[j] != c by {
            assert(suffix[j] == v@[start + j]);
        }
        lemma_first_occurrence_unique(suffix, c, suffix.len() as int);
    }
    n
}

/// One line after labeling; `labels` holds the label text.
fn transform_line(
    line: &Vec<char>,
    labels: &Vec<char>,
    Ghost(job): Ghost<Seq<char>>,
    Ghost(instance): Ghost<Seq<char>>,
) -> (r: Vec<char>)
    requires
        labels@ == label_pairs(job, instance),
    ensures
        r@ == transformed_line(line@, job, instance),
{
    let n = line.len();
    if n > 0 && line[0] == '#' {
        let r = line.clone();
        proof {
            assert(r@ =~= line@);
        }
        return r;
    }
    let brace = find_from(line, 0, '{');
    proof {
        assert(line@.skip(0) =~= line@);
    }
    if brace < n {
        let mut out: Vec<char> = Vec::new();
        push_range(&mut out, line, 0, brace + 1);
        push_range(&mut out, labels, 0, labels.len());
        out.push(',');
        out.push(' ');
        push_range(&mut out, line, brace + 1, n);
        proof {
            assert(labels@.subrange(0, labels@.len() as int) =~= labels@);
            assert(line@.subrange(0, brace + 1) =~= line@.take(brace + 1));
            assert(line@.subrange(brace + 1, n as int) =~= line@.skip(brace + 1));
            assert(out@ =~= transformed_line(line@, job, instance));
        }
        return out;
    }
    let space = find_from(line, 0, ' ');
    if space < n {
        let mut out: Vec<char> = Vec::new();
        push_range(&mut out, line, 0, space);
        out.push('{');
        push_range(&mut out, labels, 0, labels.len());
        out.push('}');
        push_range(&mut out, line, space, n);
        proof {
            assert(labels@.subrange(0, labels@.len() as int) =~= labels@);
            assert(line@.subrange(0, space as int) =~= line@.take(space as int));
            assert(line@.subrange(space as int, n as int) =~= line@.skip(space as int));
            assert(out@ =~= transformed_line(line@, job, instance));
        }
        return out;
    }
    let r = line.clone();
    proof {
        assert(r@ =~= line@);
    }
    r
}

/// The label text as characters.
fn build_labels(job: &Vec<char>, instance: &Vec<char>) -> (r: Vec<char>)
    ensures
        r@ == label_pairs(job@, instance@),
{
    let mut r: Vec<char> = Vec::new();
    r.push('j');
    r.push('o');
    r.push('b');
    r.push('=');
    r.push('"');
    push_range(&mut r, job, 0, job.len());
    r.push('"');
    r.push(',');
    r.push(' ');
    r.push('i');
    r.push('n');
    r.push('s');
    r.push('t');
    r.push('a');
    r.push('n');
    r.push('c');
    r.push('e');
    r.push('=');
    r.push('"');
    push_range(&mut r, instance, 0, instance.len());
    r.push('"');
    proof {
        assert(job@.subrange(0, job@.len() as int) =~= job@);
        assert(instance@.subrange(0, instance@.len() as int) =~= instance@);
        assert(r@ =~= label_pairs(job@, instance@));
    }
    r
}

/// Relies on String::push: appends one character.
#[verifier::external_body]
fn string_push(s: &mut String, c: char)
    ensures
        final(s)@ == old(s)@.push(c),
{
    s.push(c);
}

/// The characters as a string.
fn chars_to_string(v: &Vec<char>) -> (r: String)
    ensures
        r@ == v@,
{
    let mut r = String::new();
    let n = v.len();
    for i in 0..n
        invariant
            n == v@.len(),
            r@ == v@.subrange(0, i as int),
    {
        string_push(&mut r, v[i]);
        proof {
            assert(v@.subrange(0, i + 1) =~= v@.subrange(0, i as int).push(v@[i as int]));
        }
    }
    proof {
        assert(v@.subrange(0, n as int) =~= v@);
    }
    r
}

/// Stamps every sample line of the metrics exposition text with the job
/// and instance labels: inside the line's label brace if it has one, in a
/// fresh brace pair before the value otherwise; comment lines pass
/// through.
pub fn inject_job_label(metrics: &str, job: &str, instance: &str) -> (r: String)
    ensures
        r@ == spec_inject(metrics@, job@, instance@),
{
    let m = str_to_chars(metrics);
    let job_chars = str_to_chars(job);
    let instance_chars = str_to_chars(instance);
    let labels = build_labels(&job_chars, &instance_chars);
    let ghost transform = |l: Seq<char>| transformed_line(l, job@, instance@);
    let mut out: Vec<char> = Vec::new();
    let mut pos: usize = 0;
    let mut first: bool = true;
    let ghost mut lines_done: Seq<Seq<char>> = Seq::empty();
    let n = m.len();
    proof {
        assert(m@.skip(0) =~= m@);
        assert(lines_done + split_lines(m@) =~= split_lines(m@));
    }
    while pos < n
        invariant
            pos <= n,
            first == (lines_done.len() == 0),
            n == m@.len(),
            m@ == metrics@,
            labels@ == label_pairs(job@, instance@),
            transform == (|l: Seq<char>| transformed_line(l, job@, instance@)),
            split_lines(m@) == lines_done + split_lines(m@.skip(pos as int)),
            out@ == join_lines(lines_done.map_values(transform)),
        decreases n - pos,
    {
        let ghost suffix = m@.skip(pos as int);
        let p = find_from(&m, pos, '\n');
        let has_nl = p < n;
        let line_end = if has_nl && p > pos && m[p - 1] == '\r' {
            p - 1
        } else {
            p
        };
        let mut line: Vec<char> = Vec::new();
        push_range(&mut line, &m, pos, line_end);
        proof {
            let fo = first_occurrence(suffix, '\n');
            assert(fo == p - pos);
            if has_nl {
                assert(suffix.take(fo as int) =~= m@.subrange(pos as int, p as int));
                assert(line@ =~= strip_cr(suffix.take(fo as int)));
                assert(suffix.skip(fo as int + 1) =~= m@.skip(p + 1));
                assert(split_lines(suffix) == seq![strip_cr(suffix.take(fo as int))] + split_lines(
                    m@.skip(p + 1),
                ));
            } else {
                assert(line@ =~= suffix);
                assert(split_lines(suffix) == seq![suffix]);
            }
        }
        let t = transform_line(&line, &labels, Ghost(job@), Ghost(instance@));
        if !first {
            out.push('\n');
        } else {
            proof {
                assert(lines_done.map_values(transform).len() == 0);
            }
        }
        first = false;
        push_range(&mut out, &t, 0, t.len());
        proof {
            assert(t@.subrange(0, t@.len() as int) =~= t@);
            let done2 = lines_done.push(line@);
            assert(done2.map_values(transform) =~= lines_done.map_values(transform).push(
                transform(line@),
            ));
            lemma_join_push(lines_done.map_values(transform), transform(line@));
            assert(lines_done.map_values(transform).len() == lines_done.len());
            assert(split_lines(m@) == done2 + split_lines(m@.skip(if has_nl {
                p + 1
            } else {
                p as int
            }))) by {
                if has_nl {
                    assert(lines_done + split_lines(suffix) =~= done2 + split_lines(m@.skip(p + 1)));
                } else {
                    assert(m@.skip(p as int).len() == 0);
                    assert(split_lines(m@.skip(p as int)) =~= Seq::<Seq<char>>::empty());
                    assert(lines_done + split_lines(suffix) =~= done2 + split_lines(
                        m@.skip(p as int),
                    ));
                }
            }
            lines_done = done2;
        }
        pos = if has_nl {
            p + 1
        } else {
            p
        };
    }
    proof {
        assert(m@.skip(n as int).len() == 0);
        assert(split_lines(m@.skip(n as int)) =~= Seq::<Seq<char>>::empty());
        assert(lines_done + split_lines(m@.skip(n as int)) =~= lines_done);
        assert(split_lines(m@) == lines_done);
    }
    chars_to_string(&out)
}

} // verus!
