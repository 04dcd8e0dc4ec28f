//! The dialog button decoder and its renderer.

use vstd::prelude::*;
use vstd::string::StringExecFns;

use crate::cursor::Cursor;
use crate::events::{get_attribute, spec_attr, str_eq, Attr, Tag, XmlEvent};
use crate::walk::{balanced, walk_len};
use crate::walk::lemma_walk_balanced;

verus! {

/// A decoded dialog button: its label, if one was found, and whether the
/// button commits the dialog.
pub struct Button {
    pub label: Option<String>,
    pub commit: bool,
}

/// The decoder's abstract state while it walks the button's sub-tree.
pub struct ButtonState {
    pub label: Option<Seq<char>>,
    pub commit: bool,
    pub in_text: bool,
    pub depth: int,
    pub done: bool,
    pub used: nat,
}

/// The state on entering the sub-tree: the label is seeded from the
/// opening tag's "value" attribute, the commit flag starts false.
pub open spec fn button_init(label: Option<Seq<char>>) -> ButtonState {
    ButtonState { label, commit: false, in_text: false, depth: 1, done: false, used: 0 }
}

/// How one event moves the decoder's state. A "Text" element-open arms
/// the text fallback; a "Boolean" element-open with a "value" attribute
/// rewrites the commit flag each time it is seen; literal text becomes
/// the label only while armed, only once, and only when non-empty; the
/// depth counter follows the shared walk discipline.
pub open spec fn button_step(st: ButtonState, ev: XmlEvent) -> ButtonState {
    match ev {
        XmlEvent::Open(t) => {
            let next = ButtonState { depth: st.depth + 1, used: st.used + 1, ..st };
            if t.name@ == "Text"@ {
                ButtonState { in_text: true, ..next }
            } else if t.name@ == "Boolean"@ {
                match spec_attr(t.attrs@, "value"@) {
                    Some(v) => ButtonState { commit: v == "True"@, ..next },
                    None => next,
                }
            } else {
                next
            }
        },
        XmlEvent::Close(n) => {
            let in_text = if n@ == "Text"@ {
                false
            } else {
                st.in_text
            };
            if st.depth == 1 {
                ButtonState { in_text, depth: 0, done: true, used: st.used + 1, ..st }
            } else {
                ButtonState { in_text, depth: st.depth - 1, used: st.used + 1, ..st }
            }
        },
        XmlEvent::Text(s) => {
            if st.in_text && st.label is None && s@.len() > 0 {
                ButtonState { label: Some(s@), used: st.used + 1, ..st }
            } else {
                ButtonState { used: st.used + 1, ..st }
            }
        },
        XmlEvent::Other => ButtonState { used: st.used + 1, ..st },
    }
}

/// The state after running the decoder over `evs`, stopping at the
/// sub-tree's end or at the end of input.
pub open spec fn button_run(st: ButtonState, evs: Seq<XmlEvent>) -> ButtonState
    decreases evs.len(),
{
    if st.done || evs.len() == 0 {
        st
    } else {
        button_run(button_step(st, evs[0]), evs.drop_first())
    }
}

/// The decoder's walk is the shared sub-tree walk: it consumes exactly
/// `walk_len` events.
pub proof fn lemma_button_run_used(st: ButtonState, evs: Seq<XmlEvent>)
    requires
        !st.done,
        st.depth >= 1,
    ensures
        button_run(st, evs).used == st.used + walk_len(evs, st.depth),
    decreases evs.len(),
{
    if evs.len() == 0 {
    } else {
        let st2 = button_step(st, evs[0]);
        if !st2.done {
            lemma_button_run_used(st2, evs.drop_first());
        } else {
            assert(button_run(st2, evs.drop_first()) == st2);
            assert(walk_len(evs, st.depth) == 1);
        }
    }
}

/// Once the label is set, no later event of the walk changes it: the
/// attribute seed takes priority over nested text, and the first matched
/// text block over later ones.
pub proof fn lemma_label_stable(st: ButtonState, evs: Seq<XmlEvent>)
    requires
        st.label is Some,
    ensures
        button_run(st, evs).label == st.label,
    decreases evs.len(),
{
    if st.done || evs.len() == 0 {
    } else {
        lemma_label_stable(button_step(st, evs[0]), evs.drop_first());
    }
}

/// Attribute-priority law: when the opening tag carries a "value"
/// attribute, that value is the label, whatever nested content the
/// sub-tree holds.
pub proof fn lemma_attribute_priority(attrs: Seq<Attr>, evs: Seq<XmlEvent>, v: Seq<char>)
    requires
        spec_attr(attrs, "value"@) == Some(v),
    ensures
        button_run(button_init(spec_attr(attrs, "value"@)), evs).label == Some(v),
{
    lemma_label_stable(button_init(spec_attr(attrs, "value"@)), evs);
}

/// Text-fallback law, the setting half: with no label yet and the walk
/// inside a "Text" element, the next non-empty literal block becomes the
/// label; by `lemma_label_stable`, no later block overwrites it.
pub proof fn lemma_text_fallback(st: ButtonState, s: String, rest: Seq<XmlEvent>)
    requires
        !st.done,
        st.in_text,
        st.label is None,
        s@.len() > 0,
    ensures
        button_run(st, seq![XmlEvent::Text(s)] + rest).label == Some(s@),
{
    let evs = seq![XmlEvent::Text(s)] + rest;
    assert(evs[0] == XmlEvent::Text(s));
    assert(evs.drop_first() =~= rest);
    lemma_label_stable(button_step(st, evs[0]), rest);
}

/// True of an event that can move the commit flag: a "Boolean"
/// element-open carrying a "value" attribute.
pub open spec fn is_commit_marker(ev: XmlEvent) -> bool {
    match ev {
        XmlEvent::Open(t) => t.name@ == "Boolean"@ && spec_attr(t.attrs@, "value"@) is Some,
        _ => false,
    }
}

/// True when nothing in `evs` can move the commit flag.
pub open spec fn no_commit_marker(evs: Seq<XmlEvent>) -> bool {
    forall|i: int| 0 <= i < evs.len() ==> !is_commit_marker(#[trigger] evs[i])
}

/// Events free of commit markers leave the commit flag alone.
pub proof fn lemma_commit_preserved(st: ButtonState, evs: Seq<XmlEvent>)
    requires
        no_commit_marker(evs),
    ensures
        button_run(st, evs).commit == st.commit,
    decreases evs.len(),
{
    if st.done || evs.len() == 0 {
    } else {
        assert(!is_commit_marker(evs[0]));
        assert forall|i: int| 0 <= i < evs.drop_first().len() implies !is_commit_marker(
            #[trigger] evs.drop_first()[i],
        ) by {
            assert(evs.drop_first()[i] == evs[i + 1]);
        }
        lemma_commit_preserved(button_step(st, evs[0]), evs.drop_first());
    }
}

/// Last-match-wins law for the commit flag: after the final "Boolean"
/// element-open that carries a "value" attribute, the flag is exactly
/// (value == "True"), whatever any earlier Boolean marker said.
pub proof fn lemma_commit_last_wins(st: ButtonState, t: Tag, v: Seq<char>, rest: Seq<XmlEvent>)
    requires
        !st.done,
        t.name@ == "Boolean"@,
        spec_attr(t.attrs@, "value"@) == Some(v),
        no_commit_marker(rest),
    ensures
        button_run(st, seq![XmlEvent::Open(t)] + rest).commit == (v == "True"@),
{
    broadcast use vstd::string::group_string_axioms;

    let evs = seq![XmlEvent::Open(t)] + rest;
    assert(evs[0] == XmlEvent::Open(t));
    assert(evs.drop_first() =~= rest);
    reveal_strlit("Text");
    reveal_strlit("Boolean");
    assert("Text"@.len() == 4);
    assert("Boolean"@.len() == 7);
    assert(t.name@ != "Text"@);
    lemma_commit_preserved(button_step(st, evs[0]), rest);
}

/// Depth-balance law: over well-formed nested content the decoder
/// consumes exactly its element's content and the one close that ends
/// it, however deep the content nests and whatever events follow.
pub proof fn lemma_button_depth_balance(
    seed: Option<Seq<char>>,
    content: Seq<XmlEvent>,
    close_name: String,
    rest: Seq<XmlEvent>,
)
    requires
        balanced(content),
    ensures
        button_run(button_init(seed), content + seq![XmlEvent::Close(close_name)] + rest).used
            == content.len() + 1,
{
    lemma_button_run_used(button_init(seed), content + seq![XmlEvent::Close(close_name)] + rest);
    lemma_walk_balanced(content, close_name, rest);
}

/// The display name a role tag selects: the fixed table, with the raw
/// role tag itself as the fallback.
pub open spec fn spec_button_name(role: Seq<char>) -> Seq<char> {
    if role == "Button1"@ {
        "Default Button"@
    } else if role == "Button2"@ {
        "Button 2"@
    } else if role == "Button3"@ {
        "Button 3"@
    } else {
        role
    }
}

/// What rendering a button yields: nothing without a non-empty label,
/// else the role's display name, a separator, and the label.
pub open spec fn spec_button_display(label: Option<Seq<char>>, role: Seq<char>) -> Option<
    Seq<char>,
> {
    match label {
        None => None,
        Some(l) => if l.len() == 0 {
            None
        } else {
            Some(spec_button_name(role) + ": "@ + l)
        },
    }
}

/// An absent or empty label renders to nothing, whatever the role tag.
pub proof fn lemma_unlabeled_button_renders_none(label: Option<Seq<char>>, role: Seq<char>)
    requires
        label is None || (label matches Some(l) && l.len() == 0),
    ensures
        spec_button_display(label, role) is None,
{
}

/// Unknown-role fallback law: a role tag outside the fixed table renders
/// under the raw role tag itself.
pub proof fn lemma_unknown_role_button(role: Seq<char>)
    requires
        role != "Button1"@,
        role != "Button2"@,
        role != "Button3"@,
    ensures
        spec_button_name(role) == role,
{
}

impl Button {
    /// Decodes a button from live tokenizer output: the caller has
    /// already consumed the opening tag and passes it as `e`. The reader
    /// is left just past the sub-tree's matching close, or at the end of
    /// truncated input. The record is a run of the verified decoder over
    /// the events the tokenizer handed back, whatever they were.
    pub fn from_xml(
        reader: &mut quick_xml::Reader<&[u8]>,
        e: &quick_xml::events::BytesStart<'_>,
    ) -> (b: Button)
        ensures
            exists|seed: Option<Seq<char>>, evs: Seq<XmlEvent>|
                b.label.deep_view() == (#[trigger] button_run(button_init(seed), evs)).label
                    && b.commit == button_run(button_init(seed), evs).commit,
    {
        let tag = crate::xml_source::tag_from(e);
        let events = crate::xml_source::collect_subtree(reader);
        let mut cur = Cursor::new(events);
        let ghost evs = cur.remaining();
        let b = Button::from_events(&mut cur, &tag);
        proof {
            let seed = spec_attr(tag.attrs@, "value"@);
            let fin = button_run(button_init(seed), evs);
            assert(b.label.deep_view() == fin.label && b.commit == fin.commit);
        }
        b
    }

    /// Decodes a button from the sub-tree the cursor stands in, the
    /// opening tag's attributes given as `tag`: seeds the label from the
    /// "value" attribute, falls back to the first non-empty literal text
    /// block inside a nested "Text" element, and lets the last "Boolean"
    /// marker decide the commit flag. Truncated input ends the walk
    /// without error.
    pub fn from_events(cur: &mut Cursor, tag: &Tag) -> (b: Button)
        requires
            old(cur).wf(),
            old(cur).events().len() < usize::MAX,
        ensures
            ({
                let fin = button_run(
                    button_init(spec_attr(tag.attrs@, "value"@)),
                    old(cur).remaining(),
                );
                &&& b.label.deep_view() == fin.label
                &&& b.commit == fin.commit
                &&& final(cur).events() == old(cur).events()
                &&& final(cur).pos() == old(cur).pos() + fin.used
                &&& final(cur).wf()
            }),
    {
        let ghost evs0 = cur.events();
        let ghost p0 = cur.pos();
        let mut label = get_attribute(tag, "value");
        let mut commit = false;
        let mut in_text = false;
        let mut depth: usize = 1;
        let mut stop = false;
        while !stop && cur.has_next()
            invariant
                cur.wf(),
                cur.events() == evs0,
                evs0.len() < usize::MAX,
                0 <= p0 <= cur.pos(),
                depth as int <= 1 + cur.pos() - p0,
                !stop ==> depth >= 1,
                ({
                    let st = ButtonState {
                        label: label.deep_view(),
                        commit,
                        in_text,
                        depth: depth as int,
                        done: stop,
                        used: (cur.pos() - p0) as nat,
                    };
                    button_run(st, cur.remaining()) == button_run(
                        button_init(spec_attr(tag.attrs@, "value"@)),
                        evs0.skip(p0),
                    )
                }),
            decreases evs0.len() - cur.pos(),
        {
            let ghost st_pre = ButtonState {
                label: label.deep_view(),
                commit,
                in_text,
                depth: depth as int,
                done: stop,
                used: (cur.pos() - p0) as nat,
            };
            let ghost rem_pre = cur.remaining();
            proof {
                assert(rem_pre[0] == evs0[cur.pos()]);
            }
            match cur.peek() {
                XmlEvent::Open(t) => {
                    if str_eq(t.name.as_str(), "Text") {
                        in_text = true;
                    } else if str_eq(t.name.as_str(), "Boolean") {
                        match get_attribute(t, "value") {
                            Some(v) => {
                                commit = str_eq(v.as_str(), "True");
                            },
                            None => {},
                        }
                    }
                    depth = depth + 1;
                },
                XmlEvent::Close(n) => {
                    if str_eq(n.as_str(), "Text") {
                        in_text = false;
                    }
                    depth = depth - 1;
                    if depth == 0 {
                        stop = true;
                    }
                },
                XmlEvent::Text(s) => {
                    if in_text && label.is_none() && !s.as_str().is_empty() {
                        label = Some(s.clone());
                    }
                },
                XmlEvent::Other => {},
            }
            cur.advance();
            proof {
                let st_post = ButtonState {
                    label: label.deep_view(),
                    commit,
                    in_text,
                    depth: depth as int,
                    done: stop,
                    used: (cur.pos() - p0) as nat,
                };
                assert(st_post == button_step(st_pre, rem_pre[0]));
                assert(rem_pre.drop_first() =~= cur.remaining());
                assert(button_run(st_pre, rem_pre) == button_run(st_post, cur.remaining()));
            }
        }
        proof {
            let st_end = ButtonState {
                label: label.deep_view(),
                commit,
                in_text,
                depth: depth as int,
                done: stop,
                used: (cur.pos() - p0) as nat,
            };
            assert(button_run(st_end, cur.remaining()) == st_end);
        }
        Button { label, commit }
    }

    /// Renders the button for a role tag: nothing without a non-empty
    /// label, else the role's display name, a separator, and the label.
    pub fn display(&self, button_type: &str) -> (r: Option<String>)
        ensures
            r.deep_view() == spec_button_display(self.label.deep_view(), button_type@),
    {
        let label = match &self.label {
            Some(l) => l,
            None => {
                return None;
            },
        };
        if label.as_str().is_empty() {
            return None;
        }
        let name: &str = if str_eq(button_type, "Button1") {
            "Default Button"
        } else if str_eq(button_type, "Button2") {
            "Button 2"
        } else if str_eq(button_type, "Button3") {
            "Button 3"
        } else {
            button_type
        };
        let mut out = name.to_owned();
        out.append(": ");
        out.append(label.as_str());
        Some(out)
    }
}

} // verus!
