//! The document: the history of committed annotations, together with the
//! tool state from which new ones are made.

use crate::color::Rgba;
use crate::geometry::Point;
use crate::operators::{Operator, OperatorView, Shape, ToolType};
use crate::toolbar::{PointerEvent, Tool, ToolInfo, ToolState};
use crate::utils::AppHelper;
use vstd::prelude::*;

verus! {

/// The annotations of one picture, oldest first, and the state of the tool
/// in hand.  The order of `operators` is the order in which they are drawn:
/// a later one lies on top of an earlier one.
pub struct Annotator {
    pub tool_info: ToolInfo,
    pub operators: Vec<Operator>,
}

/// What an `Annotator` holds.
pub struct AnnotatorState {
    pub tool: ToolState,
    pub operators: Seq<OperatorView>,
}

/// The views of a sequence of operators.
pub open spec fn views(operators: Seq<Operator>) -> Seq<OperatorView> {
    operators.map_values(|op: Operator| op@)
}

/// The event that ends a gesture at `end`: the button is released there.
pub open spec fn release_at(end: Point) -> PointerEvent {
    PointerEvent {
        drag_started: false,
        dragged: false,
        drag_stopped: true,
        clicked: true,
        press_origin: None,
        pointer_pos: Some(end),
    }
}

impl AnnotatorState {
    /// The state after a frame's pointer input: the tool follows the
    /// event, and an operator that the event completes is appended.
    pub open spec fn handled(self, helper: AppHelper, ev: PointerEvent) -> AnnotatorState {
        AnnotatorState {
            tool: self.tool.after(helper, ev),
            operators: match self.tool.produced(helper, ev) {
                Some(op) => self.operators.push(op),
                None => self.operators,
            },
        }
    }

    /// The state once a gesture with `tool` has begun at `start`.  A change
    /// of tool discards a pending text entry.
    pub open spec fn begun(self, tool: Tool, start: Point) -> AnnotatorState {
        AnnotatorState {
            tool: ToolState {
                tool,
                start_pos: Some(start),
                end_pos: None,
                tracks: if tool == Tool::Pencil {
                    seq![Some(start)]
                } else {
                    Seq::empty()
                },
                text_editing: if tool == self.tool.tool {
                    self.tool.text_editing
                } else {
                    None
                },
                ..self.tool
            },
            ..self
        }
    }

    /// The state once the pointer of a gesture in progress has moved to
    /// `current`: a freehand stroke grows by that point, and nothing else
    /// changes.
    pub open spec fn moved(self, current: Point) -> AnnotatorState {
        AnnotatorState {
            tool: ToolState {
                tracks: if self.tool.tool == Tool::Pencil {
                    self.tool.tracks.push(Some(current))
                } else {
                    self.tool.tracks
                },
                ..self.tool
            },
            ..self
        }
    }

    /// The state once the gesture has ended at `end`.
    pub open spec fn committed(self, helper: AppHelper, end: Point) -> AnnotatorState {
        self.handled(helper, release_at(end))
    }

    /// The state after the last operator has been taken back.  The count of
    /// numbered markers goes down by one where the operator was one;
    /// without operators nothing changes.
    pub open spec fn undone(self) -> AnnotatorState {
        if self.operators.len() == 0 {
            self
        } else {
            AnnotatorState {
                tool: ToolState {
                    number: match self.operators.last().geometry {
                        Shape::Marker { center, radius, label_index } => if self.tool.number > 0 {
                            (self.tool.number - 1) as u32
                        } else {
                            self.tool.number
                        },
                        _ => self.tool.number,
                    },
                    ..self.tool
                },
                operators: self.operators.drop_last(),
            }
        }
    }

    /// The state once the pending text entry has been finished.
    pub open spec fn text_committed(self) -> AnnotatorState {
        AnnotatorState {
            tool: ToolState { text_editing: None, ..self.tool },
            operators: match self.tool.text_operator() {
                Some(op) => self.operators.push(op),
                None => self.operators,
            },
        }
    }
}

impl View for Annotator {
    type V = AnnotatorState;

    open spec fn view(&self) -> AnnotatorState {
        AnnotatorState { tool: self.tool_info@, operators: views(self.operators@) }
    }
}

impl Annotator {
    /// A document without annotations: the select tool with the default
    /// stroke, in `color`, and no gesture in progress.
    pub fn new(color: Rgba) -> (a: Annotator)
        ensures
            a.operators@ == Seq::<Operator>::empty(),
            a@ == (AnnotatorState {
                tool: ToolState {
                    tool: Tool::Select,
                    stroke_width: crate::toolbar::StrokeWidth::THREE,
                    color,
                    start_pos: None,
                    end_pos: None,
                    tracks: Seq::empty(),
                    number: 0,
                    text_editing: None,
                },
                operators: Seq::empty(),
            }),
    {
        let a = Annotator { tool_info: ToolInfo::new(color), operators: Vec::new() };
        assert(views(a.operators@) =~= Seq::<OperatorView>::empty());
        a
    }

    fn append(&mut self, made: Option<Operator>) -> (appended: bool)
        ensures
            final(self).tool_info == old(self).tool_info,
            appended == made.is_some(),
            final(self).operators@ == (match made {
                Some(op) => old(self).operators@.push(op),
                None => old(self).operators@,
            }),
            views(final(self).operators@) == (match made {
                Some(op) => views(old(self).operators@).push(op@),
                None => views(old(self).operators@),
            }),
    {
        match made {
            Some(op) => {
                self.operators.push(op);
                assert(views(self.operators@) =~= views(old(self).operators@).push(op@));
                true
            },
            None => false,
        }
    }

    /// Takes in one frame's pointer input and appends the operator that it
    /// completes, if it completes one.  Says whether it did.
    pub fn input_event(&mut self, helper: &AppHelper, ev: &PointerEvent) -> (appended: bool)
        requires
            helper.wf(),
        ensures
            final(self)@ == old(self)@.handled(*helper, *ev),
            appended == old(self)@.tool.produced(*helper, *ev).is_some(),
            appended ==> final(self).operators@.drop_last() == old(self).operators@
                && final(self).operators@.last().wf(),
            !appended ==> final(self).operators@ == old(self).operators@,
    {
        let made: Option<Operator> = self.tool_info.input_event(helper, ev);
        let appended: bool = self.append(made);
        proof {
            if appended {
                assert(self.operators@.drop_last() =~= old(self).operators@);
            }
        }
        appended
    }

    /// Begins a gesture with `tool` at the screen point `start`.
    pub fn begin_gesture(&mut self, tool: Tool, start: Point)
        ensures
            final(self)@ == old(self)@.begun(tool, start),
            final(self).operators@ == old(self).operators@,
    {
        if self.tool_info.tool != tool {
            self.tool_info.text_editing = None;
        }
        self.tool_info.tool = tool;
        self.tool_info.start_pos = Some(start);
        self.tool_info.end_pos = None;
        self.tool_info.tracks.clear();
        if tool == Tool::Pencil {
            self.tool_info.tracks.push(Some(start));
        }
        assert(self.tool_info@.tracks =~= old(self)@.begun(tool, start).tool.tracks);
    }

    /// Follows the pointer to the screen point `current` and hands out the
    /// operator to show: what the gesture would yield if it ended there.
    /// The history is left as it is.
    pub fn update_gesture(&mut self, helper: &AppHelper, current: Point) -> (r: Option<Operator>)
        requires
            helper.wf(),
        ensures
            final(self)@ == old(self)@.moved(current),
            final(self).operators@ == old(self).operators@,
            crate::toolbar::view_of(r) == final(self)@.tool.preview(
                *helper,
                PointerEvent { pointer_pos: Some(current), ..release_at(current) },
            ),
            r.is_some() ==> r.unwrap().wf(),
    {
        if self.tool_info.tool == Tool::Pencil {
            self.tool_info.tracks.push(Some(current));
        }
        let ev = PointerEvent {
            drag_started: false,
            dragged: false,
            drag_stopped: true,
            clicked: true,
            press_origin: None,
            pointer_pos: Some(current),
        };
        self.tool_info.input_event_process(helper, &ev)
    }

    /// Ends the gesture at the screen point `end` and appends the operator
    /// that it yields, if it yields one.  Says whether it did.
    pub fn commit_gesture(&mut self, helper: &AppHelper, end: Point) -> (appended: bool)
        requires
            helper.wf(),
        ensures
            final(self)@ == old(self)@.committed(*helper, end),
            appended == old(self)@.tool.produced(*helper, release_at(end)).is_some(),
            appended ==> final(self).operators@.drop_last() == old(self).operators@
                && final(self).operators@.last().wf(),
            !appended ==> final(self).operators@ == old(self).operators@,
    {
        let ev = PointerEvent {
            drag_started: false,
            dragged: false,
            drag_stopped: true,
            clicked: true,
            press_origin: None,
            pointer_pos: Some(end),
        };
        self.input_event(helper, &ev)
    }

    /// Finishes the pending text entry and appends its operator, if it
    /// yields one.  Says whether it did.
    pub fn commit_text(&mut self) -> (appended: bool)
        ensures
            final(self)@ == old(self)@.text_committed(),
            appended == old(self)@.tool.text_operator().is_some(),
            appended ==> final(self).operators@.drop_last() == old(self).operators@
                && final(self).operators@.last().wf(),
            !appended ==> final(self).operators@ == old(self).operators@,
    {
        let made: Option<Operator> = self.tool_info.commit_text();
        let appended: bool = self.append(made);
        proof {
            if appended {
                assert(self.operators@.drop_last() =~= old(self).operators@);
            }
        }
        appended
    }

    /// Takes back the last operator and hands it out; `None`, and no
    /// change, where there is none.
    pub fn undo(&mut self) -> (r: Option<Operator>)
        ensures
            final(self)@ == old(self)@.undone(),
            r == (if old(self).operators@.len() == 0 {
                None
            } else {
                Some(old(self).operators@.last())
            }),
            old(self).operators@.len() == 0 ==> final(self).operators@ == old(self).operators@,
            old(self).operators@.len() > 0 ==> final(self).operators@ == old(
                self,
            ).operators@.drop_last(),
    {
        let last: Option<Operator> = self.operators.pop();
        match &last {
            Some(op) => {
                match &op.geometry {
                    ToolType::Marker { center, radius, label_index } => {
                        if self.tool_info.number > 0 {
                            self.tool_info.number = self.tool_info.number - 1;
                        }
                    },
                    _ => {},
                }
                assert(views(self.operators@) =~= views(old(self).operators@).drop_last());
                assert(views(old(self).operators@).last() == op@);
            },
            None => {},
        }
        last
    }

    /// Takes back every operator.  The count of numbered markers starts
    /// again at zero.
    pub fn clear(&mut self)
        ensures
            final(self).operators@ == Seq::<Operator>::empty(),
            final(self)@ == (AnnotatorState {
                tool: ToolState { number: 0, ..old(self)@.tool },
                operators: Seq::empty(),
            }),
    {
        self.operators.clear();
        self.tool_info.number = 0;
        assert(views(self.operators@) =~= Seq::<OperatorView>::empty());
    }
}

/// Taking back the operator that a gesture has just appended restores the
/// history, and the count of numbered markers with it.
pub proof fn lemma_undo_reverts_commit(s: AnnotatorState, helper: AppHelper, ev: PointerEvent)
    requires
        s.tool.produced(helper, ev).is_some(),
    ensures
        s.handled(helper, ev).undone().operators == s.operators,
        s.handled(helper, ev).undone().tool.number == s.tool.number,
{
    let after = s.handled(helper, ev);
    let op = s.tool.produced(helper, ev).unwrap();
    assert(after.operators == s.operators.push(op));
    assert(after.operators.drop_last() =~= s.operators);
    assert(after.operators.last() == op);
}

/// The number of numbered markers among the operators.
pub open spec fn marker_count(operators: Seq<OperatorView>) -> nat
    decreases operators.len(),
{
    if operators.len() == 0 {
        0
    } else {
        marker_count(operators.drop_last()) + (match operators.last().geometry {
            Shape::Marker { center, radius, label_index } => 1nat,
            _ => 0nat,
        })
    }
}

impl AnnotatorState {
    /// The count of numbered markers agrees with the history: it is the
    /// number of markers among the operators.
    pub open spec fn consistent(self) -> bool {
        self.tool.number == marker_count(self.operators)
    }
}

/// The count of numbered markers stays in step with the history: where it
/// is the number of markers among the operators, it still is after a frame's
/// pointer input, after a text entry has been finished, and after the last
/// operator has been taken back, in whatever order they come.
pub proof fn lemma_marker_count_stays_consistent(
    s: AnnotatorState,
    helper: AppHelper,
    ev: PointerEvent,
    tool: Tool,
    at: Point,
)
    requires
        s.consistent(),
    ensures
        s.handled(helper, ev).consistent(),
        s.committed(helper, at).consistent(),
        s.text_committed().consistent(),
        s.undone().consistent(),
        s.begun(tool, at).consistent(),
        s.moved(at).consistent(),
{
    lemma_handled_consistent(s, helper, ev);
    lemma_handled_consistent(s, helper, release_at(at));
    match s.tool.text_operator() {
        Some(op) => {
            assert(s.operators.push(op).drop_last() =~= s.operators);
        },
        None => {},
    }
}

proof fn lemma_handled_consistent(s: AnnotatorState, helper: AppHelper, ev: PointerEvent)
    requires
        s.consistent(),
    ensures
        s.handled(helper, ev).consistent(),
{
    match s.tool.produced(helper, ev) {
        Some(op) => {
            assert(s.operators.push(op).drop_last() =~= s.operators);
        },
        None => {},
    }
}

} // verus!
