//! The "Target" collaborator decoder: resolves which variable a dialog
//! field writes into.

use vstd::prelude::*;

use crate::cursor::Cursor;
use crate::events::{get_attribute, spec_attr, str_eq, XmlEvent};
use crate::walk::walk_len;

verus! {

/// What the decoder found: the first variable reference named inside its
/// sub-tree, if any.
pub struct Target {
    pub value: Option<String>,
}

/// The decoder's abstract state while it walks its sub-tree.
pub struct TargetState {
    pub value: Option<Seq<char>>,
    pub depth: int,
    pub done: bool,
    pub used: nat,
}

pub open spec fn target_init() -> TargetState {
    TargetState { value: None, depth: 1, done: false, used: 0 }
}

/// How one event moves the decoder's state: the first "Variable" element
/// carrying a "value" attribute names the target, and the depth counter
/// follows the shared walk discipline.
pub open spec fn target_step(st: TargetState, ev: XmlEvent) -> TargetState {
    match ev {
        XmlEvent::Open(t) => {
            let next = TargetState { depth: st.depth + 1, used: st.used + 1, ..st };
            if st.value is None && t.name@ == "Variable"@ {
                match spec_attr(t.attrs@, "value"@) {
                    Some(v) => TargetState { value: Some(v), ..next },
                    None => next,
                }
            } else {
                next
            }
        },
        XmlEvent::Close(_) => {
            if st.depth == 1 {
                TargetState { depth: 0, done: true, used: st.used + 1, ..st }
            } else {
                TargetState { depth: st.depth - 1, used: st.used + 1, ..st }
            }
        },
        _ => TargetState { used: st.used + 1, ..st },
    }
}

/// The state after running the decoder over `evs`, stopping at the
/// sub-tree's end or at the end of input.
pub open spec fn target_run(st: TargetState, evs: Seq<XmlEvent>) -> TargetState
    decreases evs.len(),
{
    if st.done || evs.len() == 0 {
        st
    } else {
        target_run(target_step(st, evs[0]), evs.drop_first())
    }
}

/// The decoder's walk is the shared sub-tree walk: it consumes exactly
/// `walk_len` events.
pub proof fn lemma_target_run_used(st: TargetState, evs: Seq<XmlEvent>)
    requires
        !st.done,
        st.depth >= 1,
    ensures
        target_run(st, evs).used == st.used + walk_len(evs, st.depth),
    decreases evs.len(),
{
    if evs.len() == 0 {
    } else {
        let st2 = target_step(st, evs[0]);
        if !st2.done {
            lemma_target_run_used(st2, evs.drop_first());
        } else {
            assert(target_run(st2, evs.drop_first()) == st2);
            assert(walk_len(evs, st.depth) == 1);
        }
    }
}

impl Target {
    /// Decodes a target reference from the sub-tree the cursor stands in:
    /// walks it to its closing boundary, remembering the first "Variable"
    /// element's "value" attribute. Truncated input ends the walk without
    /// error.
    pub fn from_events(cur: &mut Cursor) -> (t: Target)
        requires
            old(cur).wf(),
            old(cur).events().len() < usize::MAX,
        ensures
            ({
                let fin = target_run(target_init(), old(cur).remaining());
                &&& t.value.deep_view() == fin.value
                &&& final(cur).events() == old(cur).events()
                &&& final(cur).pos() == old(cur).pos() + fin.used
                &&& final(cur).wf()
            }),
    {
        let ghost evs0 = cur.events();
        let ghost p0 = cur.pos();
        let mut value: Option<String> = None;
        let mut depth: usize = 1;
        let mut stop = false;
        while !stop && cur.has_next()
            invariant
                cur.wf(),
                cur.events() == evs0,
                evs0.len() < usize::MAX,
                0 <= p0 <= cur.pos(),
                depth as int <= 1 + cur.pos() - p0,
                !stop ==> depth >= 1,
                ({
                    let st = TargetState {
                        value: value.deep_view(),
                        depth: depth as int,
                        done: stop,
                        used: (cur.pos() - p0) as nat,
                    };
                    target_run(st, cur.remaining()) == target_run(target_init(), evs0.skip(p0))
                }),
            decreases evs0.len() - cur.pos(),
        {
            let ghost st_pre = TargetState {
                value: value.deep_view(),
                depth: depth as int,
                done: stop,
                used: (cur.pos() - p0) as nat,
            };
            let ghost rem_pre = cur.remaining();
            proof {
                assert(rem_pre[0] == evs0[cur.pos()]);
            }
            match cur.peek() {
                XmlEvent::Open(t) => {
                    if value.is_none() && str_eq(t.name.as_str(), "Variable") {
                        match get_attribute(t, "value") {
                            Some(v) => {
                                value = Some(v);
                            },
                            None => {},
                        }
                    }
                    depth = depth + 1;
                },
                XmlEvent::Close(_) => {
                    depth = depth - 1;
                    if depth == 0 {
                        stop = true;
                    }
                },
                XmlEvent::Text(_) => {},
                XmlEvent::Other => {},
            }
            cur.advance();
            proof {
                let st_post = TargetState {
                    value: value.deep_view(),
                    depth: depth as int,
                    done: stop,
                    used: (cur.pos() - p0) as nat,
                };
                assert(st_post == target_step(st_pre, rem_pre[0]));
                assert(rem_pre.drop_first() =~= cur.remaining());
                assert(target_run(st_pre, rem_pre) == target_run(st_post, cur.remaining()));
            }
        }
        proof {
            let st_end = TargetState {
                value: value.deep_view(),
                depth: depth as int,
                done: stop,
                used: (cur.pos() - p0) as nat,
            };
            assert(target_run(st_end, cur.remaining()) == st_end);
        }
        Target { value }
    }

    /// The rendered form of the decoded target: the variable reference
    /// found, or absence when the sub-tree named none.
    pub fn display(&self) -> (r: Option<String>)
        ensures
            r.deep_view() == self.value.deep_view(),
    {
        match &self.value {
            Some(v) => Some(v.clone()),
            None => None,
        }
    }
}

} // verus!
