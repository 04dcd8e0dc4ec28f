//! The "Calculation" collaborator decoder: resolves the literal text of a
//! calculation sub-tree.

use vstd::prelude::*;

use crate::cursor::Cursor;
use crate::events::{str_eq, XmlEvent};
use crate::walk::walk_len;

verus! {

/// What the decoder found: the first non-empty literal text block inside
/// a "Text" element of its sub-tree, if any.
pub struct Calculation {
    pub text: Option<String>,
}

/// The decoder's abstract state while it walks its sub-tree.
pub struct CalcState {
    pub text: Option<Seq<char>>,
    pub in_text: bool,
    pub depth: int,
    pub done: bool,
    pub used: nat,
}

pub open spec fn calc_init() -> CalcState {
    CalcState { text: None, in_text: false, depth: 1, done: false, used: 0 }
}

/// How one event moves the decoder's state: literal text counts only
/// inside a "Text" element, the first non-empty block wins, and the depth
/// counter follows the shared walk discipline.
pub open spec fn calc_step(st: CalcState, ev: XmlEvent) -> CalcState {
    match ev {
        XmlEvent::Open(t) => {
            let next = CalcState { depth: st.depth + 1, used: st.used + 1, ..st };
            if t.name@ == "Text"@ {
                CalcState { in_text: true, ..next }
            } else {
                next
            }
        },
        XmlEvent::Close(n) => {
            let in_text = if n@ == "Text"@ {
                false
            } else {
                st.in_text
            };
            if st.depth == 1 {
                CalcState { in_text, depth: 0, done: true, used: st.used + 1, ..st }
            } else {
                CalcState { in_text, depth: st.depth - 1, used: st.used + 1, ..st }
            }
        },
        XmlEvent::Text(s) => {
            if st.in_text && st.text is None && s@.len() > 0 {
                CalcState { text: Some(s@), used: st.used + 1, ..st }
            } else {
                CalcState { used: st.used + 1, ..st }
            }
        },
        XmlEvent::Other => CalcState { used: st.used + 1, ..st },
    }
}

/// The state after running the decoder over `evs`, stopping at the
/// sub-tree's end or at the end of input.
pub open spec fn calc_run(st: CalcState, evs: Seq<XmlEvent>) -> CalcState
    decreases evs.len(),
{
    if st.done || evs.len() == 0 {
        st
    } else {
        calc_run(calc_step(st, evs[0]), evs.drop_first())
    }
}

/// The decoder's walk is the shared sub-tree walk: it consumes exactly
/// `walk_len` events.
pub proof fn lemma_calc_run_used(st: CalcState, evs: Seq<XmlEvent>)
    requires
        !st.done,
        st.depth >= 1,
    ensures
        calc_run(st, evs).used == st.used + walk_len(evs, st.depth),
    decreases evs.len(),
{
    if evs.len() == 0 {
    } else {
        let st2 = calc_step(st, evs[0]);
        if !st2.done {
            lemma_calc_run_used(st2, evs.drop_first());
        } else {
            assert(calc_run(st2, evs.drop_first()) == st2);
            assert(walk_len(evs, st.depth) == 1);
        }
    }
}

impl Calculation {
    /// Decodes a calculation from the sub-tree the cursor stands in:
    /// walks it to its closing boundary, remembering the first non-empty
    /// literal text block found inside a "Text" element. Truncated input
    /// ends the walk without error.
    pub fn from_events(cur: &mut Cursor) -> (c: Calculation)
        requires
            old(cur).wf(),
            old(cur).events().len() < usize::MAX,
        ensures
            ({
                let fin = calc_run(calc_init(), old(cur).remaining());
                &&& c.text.deep_view() == fin.text
                &&& final(cur).events() == old(cur).events()
                &&& final(cur).pos() == old(cur).pos() + fin.used
                &&& final(cur).wf()
            }),
    {
        let ghost evs0 = cur.events();
        let ghost p0 = cur.pos();
        let mut text: Option<String> = None;
        let mut in_text = false;
        let mut depth: usize = 1;
        let mut stop = false;
        while !stop && cur.has_next()
            invariant
                cur.wf(),
                cur.events() == evs0,
                evs0.len() < usize::MAX,
                0 <= p0 <= cur.pos(),
                depth as int <= 1 + cur.pos() - p0,
                !stop ==> depth >= 1,
                ({
                    let st = CalcState {
                        text: text.deep_view(),
                        in_text,
                        depth: depth as int,
                        done: stop,
                        used: (cur.pos() - p0) as nat,
                    };
                    calc_run(st, cur.remaining()) == calc_run(calc_init(), evs0.skip(p0))
                }),
            decreases evs0.len() - cur.pos(),
        {
            let ghost st_pre = CalcState {
                text: text.deep_view(),
                in_text,
                depth: depth as int,
                done: stop,
                used: (cur.pos() - p0) as nat,
            };
            let ghost rem_pre = cur.remaining();
            proof {
                assert(rem_pre[0] == evs0[cur.pos()]);
            }
            match cur.peek() {
                XmlEvent::Open(t) => {
                    if str_eq(t.name.as_str(), "Text") {
                        in_text = true;
                    }
                    depth = depth + 1;
                },
                XmlEvent::Close(n) => {
                    if str_eq(n.as_str(), "Text") {
                        in_text = false;
                    }
                    depth = depth - 1;
                    if depth == 0 {
                        stop = true;
                    }
                },
                XmlEvent::Text(s) => {
                    if in_text && text.is_none() && !s.as_str().is_empty() {
                        text = Some(s.clone());
                    }
                },
                XmlEvent::Other => {},
            }
            cur.advance();
            proof {
                let st_post = CalcState {
                    text: text.deep_view(),
                    in_text,
                    depth: depth as int,
                    done: stop,
                    used: (cur.pos() - p0) as nat,
                };
                assert(st_post == calc_step(st_pre, rem_pre[0]));
                assert(rem_pre.drop_first() =~= cur.remaining());
                assert(calc_run(st_pre, rem_pre) == calc_run(st_post, cur.remaining()));
            }
        }
        proof {
            let st_end = CalcState {
                text: text.deep_view(),
                in_text,
                depth: depth as int,
                done: stop,
                used: (cur.pos() - p0) as nat,
            };
            assert(calc_run(st_end, cur.remaining()) == st_end);
        }
        Calculation { text }
    }

    /// The rendered form of the decoded calculation: its literal text, or
    /// absence when the sub-tree carried none.
    pub fn display(&self) -> (r: Option<String>)
        ensures
            r.deep_view() == self.text.deep_view(),
    {
        match &self.text {
            Some(t) => Some(t.clone()),
            None => None,
        }
    }
}

} // verus!
