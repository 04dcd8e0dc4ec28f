//! The dialog input-field decoder and its renderer.
//!
//! This decoder delegates two kinds of nested sub-trees to the
//! collaborator decoders: a "Parameter" of type "Target" resolves the
//! field's target reference, one of type "Label" its label. A
//! collaborator consumes its whole sub-tree including the closing tag,
//! so the delegating walk must correct its depth counter by the one
//! extra decrement it charged when it saw that sub-tree's opening tag.

use vstd::prelude::*;
use vstd::string::StringExecFns;

use crate::calculation::{calc_init, calc_run, lemma_calc_run_used, Calculation};
use crate::cursor::Cursor;
use crate::events::{get_attribute, spec_attr, str_eq, XmlEvent};
use crate::target::{lemma_target_run_used, target_init, target_run, Target};
use crate::walk::{balanced, walk_len};
use crate::walk::{lemma_walk_balanced, lemma_walk_len_le, lemma_walk_split};

verus! {

broadcast use vstd::string::group_string_axioms;

/// A decoded dialog input field: the target it writes into, its label,
/// and whether it hides its input.
pub struct DialogField {
    pub target: Option<String>,
    pub label: Option<String>,
    pub password: bool,
}

/// The decoder's abstract state while it walks the field's sub-tree.
pub struct FieldState {
    pub target: Option<Seq<char>>,
    pub label: Option<Seq<char>>,
    pub password: bool,
    pub depth: int,
    pub done: bool,
    pub used: nat,
}

pub open spec fn field_init() -> FieldState {
    FieldState { target: None, label: None, password: false, depth: 1, done: false, used: 0 }
}

pub open spec fn min_nat(a: nat, b: nat) -> nat {
    if a <= b {
        a
    } else {
        b
    }
}

/// The state after running the decoder over `evs`, stopping at the
/// sub-tree's end or at the end of input.
///
/// A "Parameter" element-open whose "type" attribute names a
/// collaborator hands that whole sub-tree to the collaborator's run and
/// goes on right after it, at an unchanged depth: the optimistic
/// increment for the opening tag and the correction for the consumed
/// closing tag cancel. A "Boolean" marker of type "Password" and value
/// "True" sets the password flag; nothing clears it.
pub open spec fn dialog_run(st: FieldState, evs: Seq<XmlEvent>) -> FieldState
    decreases evs.len(),
{
    if st.done || evs.len() == 0 {
        st
    } else {
        match evs[0] {
            XmlEvent::Open(t) => {
                if t.name@ == "Parameter"@ && spec_attr(t.attrs@, "type"@) == Some("Target"@) {
                    let sub = evs.drop_first();
                    let tfin = target_run(target_init(), sub);
                    let k = min_nat(tfin.used, sub.len() as nat);
                    dialog_run(
                        FieldState { target: tfin.value, used: st.used + 1 + k, ..st },
                        sub.skip(k as int),
                    )
                } else if t.name@ == "Parameter"@ && spec_attr(t.attrs@, "type"@) == Some(
                    "Label"@,
                ) {
                    let sub = evs.drop_first();
                    let cfin = calc_run(calc_init(), sub);
                    let k = min_nat(cfin.used, sub.len() as nat);
                    dialog_run(
                        FieldState { label: cfin.text, used: st.used + 1 + k, ..st },
                        sub.skip(k as int),
                    )
                } else {
                    let password = if t.name@ == "Boolean"@ && spec_attr(t.attrs@, "type"@)
                        == Some("Password"@) && spec_attr(t.attrs@, "value"@) == Some("True"@) {
                        true
                    } else {
                        st.password
                    };
                    dialog_run(
                        FieldState { password, depth: st.depth + 1, used: st.used + 1, ..st },
                        evs.drop_first(),
                    )
                }
            },
            XmlEvent::Close(_) => {
                if st.depth == 1 {
                    FieldState { depth: 0, done: true, used: st.used + 1, ..st }
                } else {
                    dialog_run(
                        FieldState { depth: st.depth - 1, used: st.used + 1, ..st },
                        evs.drop_first(),
                    )
                }
            },
            _ => dialog_run(FieldState { used: st.used + 1, ..st }, evs.drop_first()),
        }
    }
}

/// The decoder's walk is the shared sub-tree walk: delegation or not, it
/// consumes exactly `walk_len` events.
pub proof fn lemma_dialog_run_used(st: FieldState, evs: Seq<XmlEvent>)
    requires
        !st.done,
        st.depth >= 1,
    ensures
        dialog_run(st, evs).used == st.used + walk_len(evs, st.depth),
    decreases evs.len(),
{
    if evs.len() == 0 {
    } else {
        match evs[0] {
            XmlEvent::Open(t) => {
                let sub = evs.drop_first();
                if t.name@ == "Parameter"@ && spec_attr(t.attrs@, "type"@) == Some("Target"@) {
                    let tfin = target_run(target_init(), sub);
                    lemma_target_run_used(target_init(), sub);
                    lemma_walk_len_le(sub, 1);
                    lemma_walk_split(sub, st.depth);
                    let k = walk_len(sub, 1);
                    assert(min_nat(tfin.used, sub.len() as nat) == k);
                    lemma_dialog_run_used(
                        FieldState { target: tfin.value, used: st.used + 1 + k, ..st },
                        sub.skip(k as int),
                    );
                } else if t.name@ == "Parameter"@ && spec_attr(t.attrs@, "type"@) == Some(
                    "Label"@,
                ) {
                    let cfin = calc_run(calc_init(), sub);
                    lemma_calc_run_used(calc_init(), sub);
                    lemma_walk_len_le(sub, 1);
                    lemma_walk_split(sub, st.depth);
                    let k = walk_len(sub, 1);
                    assert(min_nat(cfin.used, sub.len() as nat) == k);
                    lemma_dialog_run_used(
                        FieldState { label: cfin.text, used: st.used + 1 + k, ..st },
                        sub.skip(k as int),
                    );
                } else {
                    let password = if t.name@ == "Boolean"@ && spec_attr(t.attrs@, "type"@)
                        == Some("Password"@) && spec_attr(t.attrs@, "value"@) == Some("True"@) {
                        true
                    } else {
                        st.password
                    };
                    lemma_dialog_run_used(
                        FieldState { password, depth: st.depth + 1, used: st.used + 1, ..st },
                        sub,
                    );
                }
            },
            XmlEvent::Close(_) => {
                if st.depth == 1 {
                } else {
                    lemma_dialog_run_used(
                        FieldState { depth: st.depth - 1, used: st.used + 1, ..st },
                        evs.drop_first(),
                    );
                }
            },
            _ => {
                lemma_dialog_run_used(
                    FieldState { used: st.used + 1, ..st },
                    evs.drop_first(),
                );
            },
        }
    }
}

/// Monotonic-true law: once the password flag is set, no later event of
/// the walk clears it — delegation included.
pub proof fn lemma_password_monotonic(st: FieldState, evs: Seq<XmlEvent>)
    requires
        st.password,
    ensures
        dialog_run(st, evs).password,
    decreases evs.len(),
{
    if st.done || evs.len() == 0 {
    } else {
        match evs[0] {
            XmlEvent::Open(t) => {
                let sub = evs.drop_first();
                if t.name@ == "Parameter"@ && spec_attr(t.attrs@, "type"@) == Some("Target"@) {
                    let tfin = target_run(target_init(), sub);
                    let k = min_nat(tfin.used, sub.len() as nat);
                    lemma_password_monotonic(
                        FieldState { target: tfin.value, used: st.used + 1 + k, ..st },
                        sub.skip(k as int),
                    );
                } else if t.name@ == "Parameter"@ && spec_attr(t.attrs@, "type"@) == Some(
                    "Label"@,
                ) {
                    let cfin = calc_run(calc_init(), sub);
                    let k = min_nat(cfin.used, sub.len() as nat);
                    lemma_password_monotonic(
                        FieldState { label: cfin.text, used: st.used + 1 + k, ..st },
                        sub.skip(k as int),
                    );
                } else {
                    lemma_password_monotonic(
                        FieldState { password: true, depth: st.depth + 1, used: st.used + 1, ..st },
                        sub,
                    );
                }
            },
            XmlEvent::Close(_) => {
                if st.depth == 1 {
                } else {
                    lemma_password_monotonic(
                        FieldState { depth: st.depth - 1, used: st.used + 1, ..st },
                        evs.drop_first(),
                    );
                }
            },
            _ => {
                lemma_password_monotonic(
                    FieldState { used: st.used + 1, ..st },
                    evs.drop_first(),
                );
            },
        }
    }
}

/// Depth-balance law: over well-formed nested content the decoder,
/// delegation and all, consumes exactly its element's content and the
/// one close that ends it, whatever events follow.
pub proof fn lemma_dialog_depth_balance(
    content: Seq<XmlEvent>,
    close_name: String,
    rest: Seq<XmlEvent>,
)
    requires
        balanced(content),
    ensures
        dialog_run(field_init(), content + seq![XmlEvent::Close(close_name)] + rest).used
            == content.len() + 1,
{
    lemma_dialog_run_used(field_init(), content + seq![XmlEvent::Close(close_name)] + rest);
    lemma_walk_balanced(content, close_name, rest);
}

/// The input number a role tag selects: the fixed table, with a
/// placeholder for any unrecognized role tag.
pub open spec fn spec_field_number(role: Seq<char>) -> Seq<char> {
    if role == "Field1"@ {
        "1"@
    } else if role == "Field2"@ {
        "2"@
    } else if role == "Field3"@ {
        "3"@
    } else {
        "?"@
    }
}

/// What rendering a field yields: nothing without a target; else the
/// input clause, a label clause when the label is present and non-empty,
/// and a password clause when the flag is set, in that fixed order.
pub open spec fn spec_field_display(
    target: Option<Seq<char>>,
    label: Option<Seq<char>>,
    password: bool,
    role: Seq<char>,
) -> Option<Seq<char>> {
    match target {
        None => None,
        Some(tv) => {
            let number = spec_field_number(role);
            let head = "Input "@ + number + ": "@ + tv;
            let with_label = match label {
                Some(l) => if l.len() > 0 {
                    head + " ; Label "@ + number + ": "@ + l
                } else {
                    head
                },
                None => head,
            };
            Some(
                if password {
                    with_label + " ; Password"@
                } else {
                    with_label
                },
            )
        },
    }
}

/// A field whose target never resolved renders to nothing, whatever its
/// label and password state.
pub proof fn lemma_untargeted_field_renders_none(
    label: Option<Seq<char>>,
    password: bool,
    role: Seq<char>,
)
    ensures
        spec_field_display(None, label, password, role) is None,
{
}

/// Unknown-role fallback law: a role tag outside the fixed table renders
/// with the placeholder number.
pub proof fn lemma_unknown_role_field(role: Seq<char>)
    requires
        role != "Field1"@,
        role != "Field2"@,
        role != "Field3"@,
    ensures
        spec_field_number(role) == "?"@,
{
}

impl DialogField {
    /// Decodes an input field from live tokenizer output: the caller has
    /// already consumed the opening tag, whose attributes this decoder
    /// never reads. The reader is left just past the sub-tree's matching
    /// close, or at the end of truncated input. The record is a run of
    /// the verified decoder over the events the tokenizer handed back,
    /// whatever they were.
    pub fn from_xml(
        reader: &mut quick_xml::Reader<&[u8]>,
        _e: &quick_xml::events::BytesStart<'_>,
    ) -> (f: DialogField)
        ensures
            exists|evs: Seq<XmlEvent>|
                f.target.deep_view() == (#[trigger] dialog_run(field_init(), evs)).target
                    && f.label.deep_view() == dialog_run(field_init(), evs).label
                    && f.password == dialog_run(field_init(), evs).password,
    {
        let events = crate::xml_source::collect_subtree(reader);
        let mut cur = Cursor::new(events);
        let ghost evs = cur.remaining();
        let f = DialogField::from_events(&mut cur);
        proof {
            let fin = dialog_run(field_init(), evs);
            assert(f.target.deep_view() == fin.target && f.label.deep_view() == fin.label
                && f.password == fin.password);
        }
        f
    }

    /// Decodes an input field from the sub-tree the cursor stands in:
    /// delegates "Parameter" sub-trees of type "Target" and "Label" to
    /// the collaborator decoders, storing their rendered forms, and sets
    /// the password flag on a qualifying "Boolean" marker. Truncated
    /// input ends the walk without error.
    pub fn from_events(cur: &mut Cursor) -> (f: DialogField)
        requires
            old(cur).wf(),
            old(cur).events().len() < usize::MAX,
        ensures
            ({
                let fin = dialog_run(field_init(), old(cur).remaining());
                &&& f.target.deep_view() == fin.target
                &&& f.label.deep_view() == fin.label
                &&& f.password == fin.password
                &&& final(cur).events() == old(cur).events()
                &&& final(cur).pos() == old(cur).pos() + fin.used
                &&& final(cur).wf()
            }),
    {
        let ghost evs0 = cur.events();
        let ghost p0 = cur.pos();
        let mut target: Option<String> = None;
        let mut label: Option<String> = None;
        let mut password = false;
        let mut depth: usize = 1;
        let mut stop = false;
        while !stop && cur.has_next()
            invariant
                cur.wf(),
                cur.events() == evs0,
                evs0.len() < usize::MAX,
                0 <= p0 <= cur.pos(),
                depth as int <= 1 + cur.pos() - p0,
                !stop ==> depth >= 1,
                ({
                    let st = FieldState {
                        target: target.deep_view(),
                        label: label.deep_view(),
                        password,
                        depth: depth as int,
                        done: stop,
                        used: (cur.pos() - p0) as nat,
                    };
                    dialog_run(st, cur.remaining()) == dialog_run(field_init(), evs0.skip(p0))
                }),
            decreases evs0.len() - cur.pos(),
        {
            let ghost st_pre = FieldState {
                target: target.deep_view(),
                label: label.deep_view(),
                password,
                depth: depth as int,
                done: stop,
                used: (cur.pos() - p0) as nat,
            };
            let ghost rem_pre = cur.remaining();
            proof {
                assert(rem_pre[0] == evs0[cur.pos()]);
            }
            let mut delegate_target = false;
            let mut delegate_label = false;
            match cur.peek() {
                XmlEvent::Open(t) => {
                    if str_eq(t.name.as_str(), "Parameter") {
                        match get_attribute(t, "type") {
                            Some(param_type) => {
                                if str_eq(param_type.as_str(), "Target") {
                                    delegate_target = true;
                                } else if str_eq(param_type.as_str(), "Label") {
                                    delegate_label = true;
                                }
                            },
                            None => {},
                        }
                    } else if str_eq(t.name.as_str(), "Boolean") {
                        let is_password = match get_attribute(t, "type") {
                            Some(v) => str_eq(v.as_str(), "Password"),
                            None => false,
                        };
                        let is_true = match get_attribute(t, "value") {
                            Some(v) => str_eq(v.as_str(), "True"),
                            None => false,
                        };
                        if is_password && is_true {
                            password = true;
                        }
                    }
                    if !delegate_target && !delegate_label {
                        depth = depth + 1;
                    }
                },
                XmlEvent::Close(_) => {
                    depth = depth - 1;
                    if depth == 0 {
                        stop = true;
                    }
                },
                XmlEvent::Text(_) => {},
                XmlEvent::Other => {},
            }
            cur.advance();
            if delegate_target {
                let ghost sub = cur.remaining();
                let decoded = Target::from_events(cur);
                target = decoded.display();
                proof {
                    let tfin = target_run(target_init(), sub);
                    lemma_target_run_used(target_init(), sub);
                    lemma_walk_len_le(sub, 1);
                    assert(min_nat(tfin.used, sub.len() as nat) == tfin.used);
                    let st_post = FieldState {
                        target: tfin.value,
                        used: st_pre.used + 1 + tfin.used,
                        ..st_pre
                    };
                    assert(sub =~= rem_pre.drop_first());
                    assert(sub.skip(tfin.used as int) =~= cur.remaining());
                    assert(dialog_run(st_pre, rem_pre) == dialog_run(st_post, cur.remaining()));
                    assert(target.deep_view() == tfin.value);
                }
            } else if delegate_label {
                let ghost sub = cur.remaining();
                let decoded = Calculation::from_events(cur);
                label = decoded.display();
                proof {
                    let cfin = calc_run(calc_init(), sub);
                    lemma_calc_run_used(calc_init(), sub);
                    lemma_walk_len_le(sub, 1);
                    assert(min_nat(cfin.used, sub.len() as nat) == cfin.used);
                    let st_post = FieldState {
                        label: cfin.text,
                        used: st_pre.used + 1 + cfin.used,
                        ..st_pre
                    };
                    assert(sub =~= rem_pre.drop_first());
                    assert(sub.skip(cfin.used as int) =~= cur.remaining());
                    assert(dialog_run(st_pre, rem_pre) == dialog_run(st_post, cur.remaining()));
                    assert(label.deep_view() == cfin.text);
                }
            } else {
                proof {
                    reveal_strlit("Parameter");
                    reveal_strlit("Boolean");
                    assert("Parameter"@.len() == 9);
                    assert("Boolean"@.len() == 7);
                    let st_post = FieldState {
                        target: target.deep_view(),
                        label: label.deep_view(),
                        password,
                        depth: depth as int,
                        done: stop,
                        used: (cur.pos() - p0) as nat,
                    };
                    assert(rem_pre.drop_first() =~= cur.remaining());
                    assert(dialog_run(st_pre, rem_pre) == dialog_run(st_post, cur.remaining()));
                }
            }
        }
        proof {
            let st_end = FieldState {
                target: target.deep_view(),
                label: label.deep_view(),
                password,
                depth: depth as int,
                done: stop,
                used: (cur.pos() - p0) as nat,
            };
            assert(dialog_run(st_end, cur.remaining()) == st_end);
        }
        DialogField { target, label, password }
    }

    /// Renders the field for a role tag: nothing without a target, else
    /// the input clause, then a label clause when the label is present
    /// and non-empty, then a password clause when the flag is set,
    /// joined in that fixed order.
    pub fn display(&self, field_type: &str) -> (r: Option<String>)
        ensures
            r.deep_view() == spec_field_display(
                self.target.deep_view(),
                self.label.deep_view(),
                self.password,
                field_type@,
            ),
    {
        let target = match &self.target {
            Some(t) => t,
            None => {
                return None;
            },
        };
        let number: &str = if str_eq(field_type, "Field1") {
            "1"
        } else if str_eq(field_type, "Field2") {
            "2"
        } else if str_eq(field_type, "Field3") {
            "3"
        } else {
            "?"
        };
        let mut out = "Input ".to_owned();
        out.append(number);
        out.append(": ");
        out.append(target.as_str());
        match &self.label {
            Some(l) => {
                if !l.as_str().is_empty() {
                    out.append(" ; Label ");
                    out.append(number);
                    out.append(": ");
                    out.append(l.as_str());
                }
            },
            None => {},
        }
        if self.password {
            out.append(" ; Password");
        }
        Some(out)
    }
}

} // verus!
