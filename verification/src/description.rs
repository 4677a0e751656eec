//! Free-form descriptive text with a light emphasis markup: `*italic*`
//! and `**bold**` spans inside plain text.

use vstd::prelude::*;

verus! {

/// A piece of descriptive text that may carry emphasis markup.
#[derive(Debug, PartialEq)]
pub struct Description(String);

/// The mathematical value of a [`Segment`].
pub enum SegmentV {
    Text(Seq<char>),
    Italic(Seq<char>),
    Bold(Seq<char>),
}

/// One run of uniformly formatted text cut out of a [`Description`].
#[derive(Debug, PartialEq)]
pub enum Segment {
    Text(String),
    Italic(String),
    Bold(String),
}

impl View for Segment {
    type V = SegmentV;

    open spec fn view(&self) -> SegmentV {
        match self {
            Segment::Text(s) => SegmentV::Text(s@),
            Segment::Italic(s) => SegmentV::Italic(s@),
            Segment::Bold(s) => SegmentV::Bold(s@),
        }
    }
}

impl View for Description {
    type V = Seq<char>;

    closed spec fn view(&self) -> Seq<char> {
        self.0@
    }
}

impl Description {
    /// Wraps raw text.
    pub fn new(value: String) -> (r: Self)
        ensures
            r@ == value@,
    {
        Description(value)
    }

    /// The raw text, markup included.
    pub fn as_str(&self) -> (r: &str)
        ensures
            r@ == self@,
    {
        self.0.as_str()
    }
}

impl Clone for Description {
    fn clone(&self) -> (r: Self)
        ensures
            r@ == self@,
    {
        Description(self.0.clone())
    }
}

/// The first position at or after `i` holding a `*`, or the text's end.
pub open spec fn plain_end(s: Seq<char>, i: int) -> int
    decreases s.len() - i,
    when 0 <= i <= s.len()
{
    if i >= s.len() {
        i
    } else if s[i] == '*' {
        i
    } else {
        plain_end(s, i + 1)
    }
}

/// Where [`plain_end`] lands: within bounds, on a `*` unless at the end,
/// with nothing but plain characters before it.
pub proof fn lemma_plain_end(s: Seq<char>, i: int)
    requires
        0 <= i <= s.len(),
    ensures
        i <= plain_end(s, i) <= s.len(),
        plain_end(s, i) < s.len() ==> s[plain_end(s, i)] == '*',
        forall|j: int| i <= j < plain_end(s, i) ==> s[j] != '*',
    decreases s.len() - i,
{
    if i < s.len() && s[i] != '*' {
        lemma_plain_end(s, i + 1);
    }
}

/// `acc` with a `*` appended to the text of its last segment.
pub open spec fn amend_last(acc: Seq<SegmentV>) -> Seq<SegmentV>
    recommends
        acc.len() > 0,
{
    let fixed = match acc[acc.len() - 1] {
        SegmentV::Text(t) => SegmentV::Text(t.push('*')),
        SegmentV::Italic(t) => SegmentV::Italic(t.push('*')),
        SegmentV::Bold(t) => SegmentV::Bold(t.push('*')),
    };
    acc.update(acc.len() - 1, fixed)
}

/// The segments cut out of `s` from position `i` on, appended to `acc`.
///
/// A plain run becomes a text segment. A `*` or `**` opens an emphasis
/// span running to the next `*`; a span still open at the end of the
/// text is dropped. A `**` span closed by a single `*` falls back to
/// italic, and the stray opening `*` is appended to the previous
/// segment, when there is one.
pub open spec fn segs_from(s: Seq<char>, i: int, acc: Seq<SegmentV>) -> Seq<SegmentV>
    decreases s.len() - i,
    when 0 <= i <= s.len()
    via segs_from_dec
{
    if i >= s.len() {
        acc
    } else if s[i] != '*' {
        let e = plain_end(s, i);
        segs_from(s, e, acc.push(SegmentV::Text(s.subrange(i, e))))
    } else {
        let double = i + 1 < s.len() && s[i + 1] == '*';
        let start = if double {
            i + 2
        } else {
            i + 1
        };
        let e = plain_end(s, start);
        if e >= s.len() {
            acc
        } else if !double {
            segs_from(s, e + 1, acc.push(SegmentV::Italic(s.subrange(start, e))))
        } else if e + 1 < s.len() && s[e + 1] == '*' {
            segs_from(s, e + 2, acc.push(SegmentV::Bold(s.subrange(start, e))))
        } else {
            let acc2 = if acc.len() > 0 {
                amend_last(acc)
            } else {
                acc
            };
            segs_from(s, e + 1, acc2.push(SegmentV::Italic(s.subrange(start, e))))
        }
    }
}

#[via_fn]
proof fn segs_from_dec(s: Seq<char>, i: int, acc: Seq<SegmentV>) {
    if 0 <= i < s.len() {
        if s[i] != '*' {
            lemma_plain_end(s, i);
        } else {
            let double = i + 1 < s.len() && s[i + 1] == '*';
            let start = if double {
                i + 2
            } else {
                i + 1
            };
            lemma_plain_end(s, start);
        }
    }
}

/// The segments a description's text parses into.
pub open spec fn segments_of(s: Seq<char>) -> Seq<SegmentV> {
    segs_from(s, 0, Seq::empty())
}

/// Finds the first `*` at or after `from`.
fn scan_star(cs: &Vec<char>, from: usize) -> (r: usize)
    requires
        from <= cs@.len(),
    ensures
        r == plain_end(cs@, from as int),
{
    let mut j: usize = from;
    while j < cs.len() && cs[j] != '*'
        invariant
            from <= j <= cs@.len(),
            plain_end(cs@, from as int) == plain_end(cs@, j as int),
        decreases cs@.len() - j,
    {
        j = j + 1;
    }
    j
}

impl Description {
    /// Cuts the text into plain, italic and bold segments, dropping the
    /// markup characters.
    pub fn to_segments(&self) -> (r: Vec<Segment>)
        ensures
            r@.map_values(|g: Segment| g@) == segments_of(self@),
    {
        let cs = crate::text::chars_of(self.0.as_str());
        let ghost s = self@;
        let mut segs: Vec<Segment> = Vec::new();
        let mut i: usize = 0;
        proof {
            assert(segs@.map_values(|g: Segment| g@) =~= Seq::<SegmentV>::empty());
        }
        while i < cs.len()
            invariant
                i <= cs@.len(),
                cs@ == s,
                segs_from(s, i as int, segs@.map_values(|g: Segment| g@)) == segments_of(s),
            ensures
                segs@.map_values(|g: Segment| g@) == segments_of(s),
            decreases cs@.len() - i,
        {
            let ghost acc = segs@.map_values(|g: Segment| g@);
            if cs[i] != '*' {
                let e = scan_star(&cs, i);
                proof {
                    lemma_plain_end(s, i as int);
                }
                let text = crate::text::string_from_range(&cs, i, e);
                segs.push(Segment::Text(text));
                proof {
                    assert(segs@.map_values(|g: Segment| g@) =~= acc.push(
                        SegmentV::Text(s.subrange(i as int, e as int)),
                    ));
                }
                i = e;
            } else {
                let double = i + 1 < cs.len() && cs[i + 1] == '*';
                let start = if double {
                    i + 2
                } else {
                    i + 1
                };
                let e = scan_star(&cs, start);
                proof {
                    lemma_plain_end(s, start as int);
                }
                if e >= cs.len() {
                    break ;
                }
                let text = crate::text::string_from_range(&cs, start, e);
                if !double {
                    segs.push(Segment::Italic(text));
                    proof {
                        assert(segs@.map_values(|g: Segment| g@) =~= acc.push(
                            SegmentV::Italic(s.subrange(start as int, e as int)),
                        ));
                    }
                    i = e + 1;
                } else if e + 1 < cs.len() && cs[e + 1] == '*' {
                    segs.push(Segment::Bold(text));
                    proof {
                        assert(segs@.map_values(|g: Segment| g@) =~= acc.push(
                            SegmentV::Bold(s.subrange(start as int, e as int)),
                        ));
                    }
                    i = e + 2;
                } else {
                    if segs.len() > 0 {
                        let last = segs.len() - 1;
                        let fixed = match segs.remove(last) {
                            Segment::Text(mut t) => {
                                crate::text::push_char(&mut t, '*');
                                Segment::Text(t)
                            },
                            Segment::Italic(mut t) => {
                                crate::text::push_char(&mut t, '*');
                                Segment::Italic(t)
                            },
                            Segment::Bold(mut t) => {
                                crate::text::push_char(&mut t, '*');
                                Segment::Bold(t)
                            },
                        };
                        segs.push(fixed);
                        proof {
                            assert(segs@.map_values(|g: Segment| g@) =~= amend_last(acc));
                        }
                    }
                    let ghost acc2 = segs@.map_values(|g: Segment| g@);
                    segs.push(Segment::Italic(text));
                    proof {
                        assert(segs@.map_values(|g: Segment| g@) =~= acc2.push(
                            SegmentV::Italic(s.subrange(start as int, e as int)),
                        ));
                    }
                    i = e + 1;
                }
            }
        }
        segs
    }
}

} // verus!
