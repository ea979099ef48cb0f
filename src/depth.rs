use vstd::prelude::*;

verus! {

/// An event of the YAML parser's stream, with the anchor ids it carries.
#[derive(Debug, Clone, Copy, PartialEq, Eq)]
pub enum YamlEvent {
    Nothing,
    StreamStart,
    StreamEnd,
    DocumentStart,
    DocumentEnd,
    /// A reference to the value anchored under this id.
    Alias(usize),
    /// A scalar, with its anchor id (0 for none).
    Scalar(usize),
    /// The start of a sequence, with its anchor id (0 for none).
    SequenceStart(usize),
    SequenceEnd,
    /// The start of a mapping, with its anchor id (0 for none).
    MappingStart(usize),
    MappingEnd,
}

/// The deepest tree, counted in levels with aliases expanded, that is loaded.
/// Loading, copying and dropping a tree recurse once per level, so this bounds
/// the stack they use.
pub const MAX_DEPTH: usize = 512;

/// What is known after a prefix of the events: for each collection still open,
/// its anchor id and the height of its tallest child so far; the height of
/// each anchored value, in order of definition; and the height of the tallest
/// value so far.
pub struct Heights {
    pub open: Seq<(usize, nat)>,
    pub anchors: Seq<(usize, nat)>,
    pub height: nat,
}

pub open spec fn max_nat(a: nat, b: nat) -> nat {
    if a >= b {
        a
    } else {
        b
    }
}

/// What is recorded of the value last anchored under `id` (its height, or its
/// size); an alias to no value loads as a single bad value, which counts 1.
pub open spec fn anchored_value(anchors: Seq<(usize, nat)>, id: usize) -> nat
    decreases anchors.len(),
{
    if anchors.len() == 0 {
        1
    } else if anchors.last().0 == id {
        anchors.last().1
    } else {
        anchored_value(anchors.drop_last(), id)
    }
}

/// `s` after a value of height `h` is completed inside the innermost open
/// collection, if any.
pub open spec fn with_value(s: Heights, h: nat) -> Heights {
    Heights {
        open: if s.open.len() == 0 {
            s.open
        } else {
            s.open.update(s.open.len() - 1, (s.open.last().0, max_nat(s.open.last().1, h)))
        },
        anchors: s.anchors,
        height: max_nat(s.height, h),
    }
}

/// `s` after a value of height `h` is anchored under `a` (0: not anchored).
pub open spec fn anchored(s: Heights, a: usize, h: nat) -> Heights {
    if a == 0 {
        s
    } else {
        Heights { open: s.open, anchors: s.anchors.push((a, h)), height: s.height }
    }
}

/// `s` after the collection opened under anchor `a` is opened.
pub open spec fn opened(s: Heights, a: usize) -> Heights {
    Heights { open: s.open.push((a, 0)), anchors: s.anchors, height: s.height }
}

/// `s` after the innermost open collection is closed.
pub open spec fn closed(s: Heights) -> Heights {
    if s.open.len() == 0 {
        s
    } else {
        let h = s.open.last().1 + 1;
        let s1 = Heights { open: s.open.drop_last(), anchors: s.anchors, height: s.height };
        with_value(anchored(s1, s.open.last().0, h), h)
    }
}

/// `s` after the event `e`.
pub open spec fn step(s: Heights, e: YamlEvent) -> Heights {
    match e {
        YamlEvent::Scalar(a) => with_value(anchored(s, a, 1), 1),
        YamlEvent::Alias(id) => with_value(s, anchored_value(s.anchors, id)),
        YamlEvent::SequenceStart(a) => opened(s, a),
        YamlEvent::MappingStart(a) => opened(s, a),
        YamlEvent::SequenceEnd => closed(s),
        YamlEvent::MappingEnd => closed(s),
        _ => s,
    }
}

/// What is known after the first `n` events of `evs`.
pub open spec fn heights_after(evs: Seq<YamlEvent>, n: nat) -> Heights
    decreases n,
{
    if n == 0 || n > evs.len() {
        Heights { open: Seq::empty(), anchors: Seq::empty(), height: 0 }
    } else {
        step(heights_after(evs, (n - 1) as nat), evs[n - 1])
    }
}

/// The height of the tallest value that loading the events `evs` builds,
/// each alias counted as a copy of the value it refers to.
pub open spec fn loaded_height(evs: Seq<YamlEvent>) -> nat {
    heights_after(evs, evs.len()).height
}

/// The tallest value so far never shrinks.
pub proof fn lemma_height_grows(evs: Seq<YamlEvent>, k: nat, n: nat)
    requires
        k <= n <= evs.len(),
    ensures
        heights_after(evs, k).height <= heights_after(evs, n).height,
    decreases n - k,
{
    if k < n {
        lemma_height_grows(evs, k, (n - 1) as nat);
    }
}

/// A sequence of pairs with the second component read as a natural number.
pub open spec fn widen(v: Seq<(usize, usize)>) -> Seq<(usize, nat)> {
    v.map_values(|p: (usize, usize)| (p.0, p.1 as nat))
}

fn find_anchor(anchors: &Vec<(usize, usize)>, id: usize, bound: usize) -> (r: usize)
    requires
        1 <= bound,
        forall|k: int| 0 <= k < anchors@.len() ==> (#[trigger] anchors@[k]).1 <= bound,
    ensures
        r as nat == anchored_value(widen(anchors@), id),
        r <= bound,
{
    let ghost w = widen(anchors@);
    let mut j: usize = anchors.len();
    proof {
        assert(w.take(j as int) =~= w);
    }
    while j > 0
        invariant
            j <= anchors@.len(),
            w == widen(anchors@),
            forall|k: int| 0 <= k < anchors@.len() ==> (#[trigger] anchors@[k]).1 <= bound,
            anchored_value(w, id) == anchored_value(w.take(j as int), id),
        decreases j,
    {
        proof {
            assert(w.take(j as int).drop_last() =~= w.take(j - 1));
        }
        if anchors[j - 1].0 == id {
            return anchors[j - 1].1;
        }
        j = j - 1;
    }
    1
}

/// Whether the tree that loading the events `evs` builds is at most
/// `MAX_DEPTH` levels deep.
pub fn within_depth(evs: &Vec<YamlEvent>) -> (r: bool)
    ensures
        r == (loaded_height(evs@) <= MAX_DEPTH),
{
    let mut open: Vec<(usize, usize)> = Vec::new();
    let mut anchors: Vec<(usize, usize)> = Vec::new();
    let mut height: usize = 0;
    let mut i: usize = 0;
    proof {
        assert(widen(open@) =~= Seq::<(usize, nat)>::empty());
        assert(widen(anchors@) =~= Seq::<(usize, nat)>::empty());
    }
    while i < evs.len()
        invariant
            i <= evs@.len(),
            height <= MAX_DEPTH,
            forall|k: int| 0 <= k < open@.len() ==> (#[trigger] open@[k]).1 <= height,
            forall|k: int| 0 <= k < anchors@.len() ==> (#[trigger] anchors@[k]).1 <= height,
            heights_after(evs@, i as nat) == (Heights {
                open: widen(open@),
                anchors: widen(anchors@),
                height: height as nat,
            }),
        decreases evs@.len() - i,
    {
        let ghost s = heights_after(evs@, i as nat);
        assert(heights_after(evs@, (i + 1) as nat) == step(s, evs@[i as int]));
        let ev = evs[i];
        // The anchor and the height of the value that this event completes.
        let mut done: Option<(usize, usize)> = None;
        match ev {
            YamlEvent::Scalar(a) => {
                done = Some((a, 1));
            },
            YamlEvent::Alias(id) => {
                let bound: usize = if height == 0 {
                    1
                } else {
                    height
                };
                let h = find_anchor(&anchors, id, bound);
                done = Some((0, h));
            },
            YamlEvent::SequenceStart(a) => {
                let ghost before = open@;
                open.push((a, 0));
                proof {
                    assert(widen(open@) =~= widen(before).push((a, 0nat)));
                }
            },
            YamlEvent::MappingStart(a) => {
                let ghost before = open@;
                open.push((a, 0));
                proof {
                    assert(widen(open@) =~= widen(before).push((a, 0nat)));
                }
            },
            YamlEvent::SequenceEnd | YamlEvent::MappingEnd => {
                let len = open.len();
                if len > 0 {
                    let (a, m) = open[len - 1];
                    let ghost before = open@;
                    open.pop();
                    proof {
                        assert(widen(open@) =~= widen(before).drop_last());
                    }
                    done = Some((a, m + 1));
                }
            },
            _ => {},
        }
        let ghost mid_anchors = anchors@;
        let ghost mid_open = open@;
        if let Some((a, h)) = done {
            if h > MAX_DEPTH {
                proof {
                    lemma_height_grows(evs@, (i + 1) as nat, evs@.len());
                }
                return false;
            }
            if a != 0 {
                anchors.push((a, h));
                proof {
                    assert(widen(anchors@) =~= widen(mid_anchors).push((a, h as nat)));
                }
            }
            let len = open.len();
            if len > 0 {
                let (oa, om) = open[len - 1];
                let nm: usize = if om >= h {
                    om
                } else {
                    h
                };
                open[len - 1] = (oa, nm);
                proof {
                    assert(widen(open@) =~= widen(mid_open).update(len - 1, (oa, nm as nat)));
                }
            }
            if h > height {
                height = h;
            }
        }
        i = i + 1;
    }
    true
}

/// The most nodes that loading may build, counting each node once for every
/// value that holds it and once more for every anchored copy; this bounds the
/// memory that loading and converting use.
pub const MAX_NODES: usize = 16777216;

/// What is counted after a prefix of the events: for each collection still
/// open, its anchor id and the nodes it holds so far (itself included); the
/// size of each anchored value, in order of definition; and the running count.
pub struct Sizes {
    pub open: Seq<(usize, nat)>,
    pub anchors: Seq<(usize, nat)>,
    pub count: nat,
}

/// `s` after a value of `n` nodes is completed inside the innermost open
/// collection, if any.
pub open spec fn with_nodes(s: Sizes, n: nat) -> Sizes {
    Sizes {
        open: if s.open.len() == 0 {
            s.open
        } else {
            s.open.update(s.open.len() - 1, (s.open.last().0, s.open.last().1 + n))
        },
        anchors: s.anchors,
        count: s.count + n,
    }
}

/// `s` after a value of `n` nodes is anchored under `a` (0: not anchored),
/// which copies it.
pub open spec fn copied(s: Sizes, a: usize, n: nat) -> Sizes {
    if a == 0 {
        s
    } else {
        Sizes { open: s.open, anchors: s.anchors.push((a, n)), count: s.count + n }
    }
}

/// `s` after the event `e`.
pub open spec fn size_step(s: Sizes, e: YamlEvent) -> Sizes {
    match e {
        YamlEvent::Scalar(a) => with_nodes(copied(s, a, 1), 1),
        YamlEvent::Alias(id) => with_nodes(s, anchored_value(s.anchors, id)),
        YamlEvent::SequenceStart(a) => Sizes {
            open: s.open.push((a, 1)),
            anchors: s.anchors,
            count: s.count,
        },
        YamlEvent::MappingStart(a) => Sizes {
            open: s.open.push((a, 1)),
            anchors: s.anchors,
            count: s.count,
        },
        YamlEvent::SequenceEnd | YamlEvent::MappingEnd => if s.open.len() == 0 {
            s
        } else {
            let n = s.open.last().1;
            let s1 = Sizes { open: s.open.drop_last(), anchors: s.anchors, count: s.count };
            with_nodes(copied(s1, s.open.last().0, n), n)
        },
        _ => s,
    }
}

/// What is counted after the first `n` events of `evs`.
pub open spec fn sizes_after(evs: Seq<YamlEvent>, n: nat) -> Sizes
    decreases n,
{
    if n == 0 || n > evs.len() {
        Sizes { open: Seq::empty(), anchors: Seq::empty(), count: 0 }
    } else {
        size_step(sizes_after(evs, (n - 1) as nat), evs[n - 1])
    }
}

/// The count of nodes that loading the events `evs` builds: each node once
/// for every completed value that holds it, aliases expanded, and once more
/// for every anchored copy.
pub open spec fn loaded_size(evs: Seq<YamlEvent>) -> nat {
    sizes_after(evs, evs.len()).count
}

/// The running count never shrinks.
pub proof fn lemma_size_grows(evs: Seq<YamlEvent>, k: nat, n: nat)
    requires
        k <= n <= evs.len(),
    ensures
        sizes_after(evs, k).count <= sizes_after(evs, n).count,
    decreases n - k,
{
    if k < n {
        lemma_size_grows(evs, k, (n - 1) as nat);
    }
}

/// Whether loading the events `evs` builds at most `MAX_NODES` nodes, as
/// `loaded_size` counts them.
pub fn within_size(evs: &Vec<YamlEvent>) -> (r: bool)
    ensures
        r == (loaded_size(evs@) <= MAX_NODES),
{
    let mut open: Vec<(usize, usize)> = Vec::new();
    let mut anchors: Vec<(usize, usize)> = Vec::new();
    let mut count: usize = 0;
    let mut i: usize = 0;
    proof {
        assert(widen(open@) =~= Seq::<(usize, nat)>::empty());
        assert(widen(anchors@) =~= Seq::<(usize, nat)>::empty());
    }
    while i < evs.len()
        invariant
            i <= evs@.len(),
            count <= MAX_NODES,
            forall|k: int| 0 <= k < open@.len() ==> (#[trigger] open@[k]).1 <= count + 1,
            forall|k: int| 0 <= k < anchors@.len() ==> (#[trigger] anchors@[k]).1 <= count,
            sizes_after(evs@, i as nat) == (Sizes {
                open: widen(open@),
                anchors: widen(anchors@),
                count: count as nat,
            }),
        decreases evs@.len() - i,
    {
        let ghost s = sizes_after(evs@, i as nat);
        assert(sizes_after(evs@, (i + 1) as nat) == size_step(s, evs@[i as int]));
        let ev = evs[i];
        // The anchor and the size of the value that this event completes.
        let mut done: Option<(usize, usize)> = None;
        match ev {
            YamlEvent::Scalar(a) => {
                done = Some((a, 1));
            },
            YamlEvent::Alias(id) => {
                let bound: usize = if count == 0 {
                    1
                } else {
                    count
                };
                let n = find_anchor(&anchors, id, bound);
                done = Some((0, n));
            },
            YamlEvent::SequenceStart(a) => {
                let ghost before = open@;
                open.push((a, 1));
                proof {
                    assert(widen(open@) =~= widen(before).push((a, 1nat)));
                }
            },
            YamlEvent::MappingStart(a) => {
                let ghost before = open@;
                open.push((a, 1));
                proof {
                    assert(widen(open@) =~= widen(before).push((a, 1nat)));
                }
            },
            YamlEvent::SequenceEnd | YamlEvent::MappingEnd => {
                let len = open.len();
                if len > 0 {
                    let (a, n) = open[len - 1];
                    let ghost before = open@;
                    open.pop();
                    proof {
                        assert(widen(open@) =~= widen(before).drop_last());
                    }
                    done = Some((a, n));
                }
            },
            _ => {},
        }
        let ghost mid_anchors = anchors@;
        let ghost mid_count = count;
        if let Some((a, n)) = done {
            let copies: usize = if a != 0 {
                2
            } else {
                1
            };
            if n > MAX_NODES || n > (MAX_NODES - count) / copies {
                proof {
                    lemma_size_grows(evs@, (i + 1) as nat, evs@.len());
                }
                return false;
            }
            if a != 0 {
                anchors.push((a, n));
                count = count + n;
                proof {
                    assert(widen(anchors@) =~= widen(mid_anchors).push((a, n as nat)));
                }
            }
            let ghost mid_open = open@;
            let len = open.len();
            if len > 0 {
                let (oa, on) = open[len - 1];
                open[len - 1] = (oa, on + n);
                proof {
                    assert(widen(open@) =~= widen(mid_open).update(len - 1, (oa, (on + n) as nat)));
                }
            }
            count = count + n;
        }
        i = i + 1;
    }
    true
}

} // verus!
