//! The visual elements of a chart (bars, points) and the state machine that
//! follows the pointer over them.
//!
//! Every element has a place on the canvas and three independent states:
//! whether the pointer is over it, what the pointer's button is doing on it,
//! and whether it is selected. A change of state starts an animation of the
//! element's scale or color; the animated values are evaluated afresh in
//! every frame from the moment and the value at which the transition began.

use vstd::prelude::*;
use crate::animation::{
    animation_completed, animation_value, lemma_eased_ratio_bounds, lemma_value_within_endpoints,
    Animation,
};
use crate::raster::Color;
use crate::types::{ClickingState, PointerState, SelectedState};
use crate::utils::{lemma_lerp_bounds, UNIT};

verus! {

/// The time an element takes to grow or shrink when the pointer enters or
/// leaves it.
pub const HOVER_TIME: u32 = 200;

/// The time an element takes to change color when it is selected or
/// deselected.
pub const SELECT_TIME: u32 = 200;

/// The time an element takes to change color when the button is pressed or
/// released on it.
pub const CLICK_TIME: u32 = 200;

/// A running change of one animated value: when it began, the value it began
/// at and the value it heads for.
#[derive(Debug, Clone, Copy, PartialEq, Eq, Structural)]
pub struct Transition {
    pub timestamp: u64,
    pub from: u32,
    pub to: u32,
}

impl Transition {
    /// The animated value at the moment `now`, for a change that takes
    /// `duration`.
    pub open spec fn value_at(self, now: u64, duration: u32) -> int {
        animation_value(now - self.timestamp, duration as int, self.from as int, self.to as int)
    }

    /// Whether the change has come to its end by the moment `now`.
    pub open spec fn done_at(self, now: u64, duration: u32) -> bool {
        animation_completed(now - self.timestamp, duration as int)
    }

    /// The animated value lies between the two ends of the change.
    pub proof fn lemma_value_between(self, now: u64, duration: u32)
        ensures
            self.from <= self.to ==> self.from <= self.value_at(now, duration) <= self.to,
            self.to <= self.from ==> self.to <= self.value_at(now, duration) <= self.from,
    {
        lemma_value_within_endpoints(
            now - self.timestamp,
            duration as int,
            self.from as int,
            self.to as int,
        );
    }

    /// At the moment it begins, a change that takes time shows the value it
    /// began at.
    pub proof fn lemma_value_at_start(self, duration: u32)
        requires
            duration > 0,
        ensures
            self.value_at(self.timestamp, duration) == self.from,
    {
        lemma_eased_ratio_bounds(0, duration as int);
        lemma_lerp_bounds(self.from as int, self.to as int, 0);
    }

    /// Evaluates the change at the moment `now`: the animated value, and
    /// whether the change has come to its end.
    pub fn sample(&self, now: u64, duration: u32) -> (r: (u32, bool))
        ensures
            r.0 as int == self.value_at(now, duration),
            r.1 == self.done_at(now, duration),
    {
        let animation = Animation::new(now, self.timestamp, duration, 0, self.from, self.to);
        (animation.get_current(), animation.is_completed())
    }
}

/// The colors of the elements of a chart and the scale of a hovered element.
#[derive(Debug, Clone, Copy, PartialEq, Eq, Structural)]
pub struct Style {
    /// The color of an element at rest.
    pub color: Color,
    /// The color an element is tinted with while the button is held on it.
    pub hover_color: Color,
    /// The color of a selected element.
    pub selected_color: Color,
    /// The fixed-point scale of an element under the pointer.
    pub hover_scale: u32,
}

impl Style {
    /// How far an element is tinted while the button is held on it: the
    /// alpha channel of the hover color as a fraction.
    pub open spec fn hold_target(self) -> int {
        (self.hover_color.a as int * UNIT as int) / 255
    }

    fn hold(&self) -> (t: u32)
        ensures
            t as int == self.hold_target(),
            t <= UNIT,
    {
        (self.hover_color.a as u32 * UNIT) / 255
    }
}

/// One visual element of a chart.
#[derive(Debug, Clone, Copy, PartialEq, Eq, Structural)]
pub struct Element {
    /// The upper left corner and the size, in pixels.
    pub x: u32,
    pub y: u32,
    pub width: u32,
    pub height: u32,
    /// The fixed-point factor by which the element is drawn larger.
    pub scale: u32,
    /// The fixed-point fraction by which the element is tinted with the
    /// hover color.
    pub color_t: u32,
    /// The color the element is drawn in.
    pub color: Color,
    pub pointer_state: PointerState,
    pub clicking_state: ClickingState,
    pub selected_state: SelectedState,
    /// The running change of `scale`.
    pub hover_anim: Transition,
    /// The running change of `color_t`.
    pub clicking_anim: Transition,
    /// The fixed-point fraction of its full size from which the element
    /// grows in.
    pub start_scale_t: u32,
}

impl Element {
    /// A new element at rest: unselected since `timestamp`, not hovered,
    /// at its natural scale, without a place yet.
    pub open spec fn fresh(timestamp: u64) -> Element {
        Element {
            x: 0,
            y: 0,
            width: 0,
            height: 0,
            scale: UNIT,
            color_t: 0,
            color: Color { r: 255, g: 255, b: 255, a: 255 },
            pointer_state: PointerState::Idle,
            clicking_state: ClickingState::Idle,
            selected_state: SelectedState::Unselected { timestamp },
            hover_anim: Transition { timestamp, from: UNIT, to: UNIT },
            clicking_anim: Transition { timestamp, from: 0, to: 0 },
            start_scale_t: 0,
        }
    }

    /// The tint fraction and both ends of its running change are fractions
    /// of one.
    pub open spec fn wf(self) -> bool {
        self.color_t <= UNIT && self.clicking_anim.from <= UNIT && self.clicking_anim.to <= UNIT
    }

    /// Whether the pointer is on the element: both coordinates are known and
    /// lie within the element's box, borders included.
    pub open spec fn contains(self, pointer_x: Option<u32>, pointer_y: Option<u32>) -> bool {
        pointer_x matches Some(px) && pointer_y matches Some(py) && self.x <= px <= self.x
            + self.width && self.y <= py <= self.y + self.height
    }

    /// The change of the selection color that the selected state drives: from
    /// none to full since the element was selected, from full to none since it
    /// was deselected.
    pub open spec fn select_anim(self) -> Transition {
        match self.selected_state {
            SelectedState::Unselected { timestamp } => Transition { timestamp, from: UNIT, to: 0 },
            SelectedState::Selected { timestamp } => Transition { timestamp, from: 0, to: UNIT },
        }
    }

    /// The element after it has taken note of the pointer.
    ///
    /// When the pointer enters, the element starts to grow to the hover
    /// scale. When it leaves, the element starts to shrink back, its tint
    /// starts to fade and the button state is forgotten. While the pointer
    /// is on the element, a button that is newly held starts the tint
    /// towards its holding strength, and a button that was just released
    /// starts the tint back to none.
    pub open spec fn reacted(
        self,
        pointed: bool,
        click: ClickingState,
        now: u64,
        style: Style,
    ) -> Element {
        if pointed {
            let entered = if self.pointer_state is Hover {
                self
            } else {
                Element {
                    pointer_state: PointerState::Hover,
                    hover_anim: Transition {
                        timestamp: now,
                        from: self.scale,
                        to: style.hover_scale,
                    },
                    ..self
                }
            };
            match click {
                ClickingState::Holding => if self.clicking_state is Holding {
                    entered
                } else {
                    Element {
                        clicking_state: ClickingState::Holding,
                        clicking_anim: Transition {
                            timestamp: now,
                            from: self.color_t,
                            to: style.hold_target() as u32,
                        },
                        ..entered
                    }
                },
                ClickingState::JustReleased => Element {
                    clicking_state: ClickingState::JustReleased,
                    clicking_anim: Transition { timestamp: now, from: self.color_t, to: 0 },
                    ..entered
                },
                ClickingState::Idle => entered,
            }
        } else if self.pointer_state is Idle {
            self
        } else {
            Element {
                pointer_state: PointerState::Idle,
                clicking_state: ClickingState::Idle,
                hover_anim: Transition { timestamp: now, from: self.scale, to: UNIT },
                clicking_anim: Transition { timestamp: now, from: self.color_t, to: 0 },
                ..self
            }
        }
    }

    /// The element after a click was dealt with. A released button toggles
    /// the selection of the element it was released on and deselects every
    /// other element; released on no element, it deselects all. A state that
    /// changes takes `now` as its moment.
    pub open spec fn with_click(self, pointed: bool, click: ClickingState, now: u64) -> Element {
        if click is JustReleased && pointed && !self.selected_state.is_selected() {
            Element { selected_state: SelectedState::Selected { timestamp: now }, ..self }
        } else if click is JustReleased && self.selected_state.is_selected() {
            Element { selected_state: SelectedState::Unselected { timestamp: now }, ..self }
        } else {
            self
        }
    }

    /// The element with its animated values as they are at the moment `now`:
    /// the scale, the tint fraction, and the color, which is the base color
    /// blended towards the selected color by the selection animation and then
    /// towards the hover color by the tint fraction.
    pub open spec fn settled(self, now: u64, style: Style) -> Element {
        let color_t = self.clicking_anim.value_at(now, CLICK_TIME);
        Element {
            scale: self.hover_anim.value_at(now, HOVER_TIME) as u32,
            color_t: color_t as u32,
            color: style.color.blend(
                style.selected_color,
                self.select_anim().value_at(now, SELECT_TIME),
            ).blend(style.hover_color, color_t),
            ..self
        }
    }

    /// Whether none of the element's animations is still running at the
    /// moment `now`.
    pub open spec fn at_rest(self, now: u64) -> bool {
        self.hover_anim.done_at(now, HOVER_TIME) && self.select_anim().done_at(now, SELECT_TIME)
            && self.clicking_anim.done_at(now, CLICK_TIME)
    }

    /// The element after one frame: it takes note of the pointer, then of a
    /// click, then shows its animated values.
    pub open spec fn stepped(
        self,
        pointed: bool,
        click: ClickingState,
        now: u64,
        style: Style,
    ) -> Element {
        self.reacted(pointed, click, now, style).with_click(pointed, click, now).settled(
            now,
            style,
        )
    }

    /// A new element at rest: see [`Element::fresh`].
    pub fn new(timestamp: u64) -> (e: Element)
        ensures
            e == Element::fresh(timestamp),
            e.wf(),
    {
        Element {
            x: 0,
            y: 0,
            width: 0,
            height: 0,
            scale: UNIT,
            color_t: 0,
            color: Color { r: 255, g: 255, b: 255, a: 255 },
            pointer_state: PointerState::Idle,
            clicking_state: ClickingState::Idle,
            selected_state: SelectedState::Unselected { timestamp },
            hover_anim: Transition { timestamp, from: UNIT, to: UNIT },
            clicking_anim: Transition { timestamp, from: 0, to: 0 },
            start_scale_t: 0,
        }
    }

    /// Whether the pointer is on the element.
    pub fn is_pointed(&self, pointer_x: Option<u32>, pointer_y: Option<u32>) -> (hit: bool)
        ensures
            hit == self.contains(pointer_x, pointer_y),
    {
        match (pointer_x, pointer_y) {
            (Some(px), Some(py)) => {
                px >= self.x && px as u64 <= self.x as u64 + self.width as u64 && py >= self.y
                    && py as u64 <= self.y as u64 + self.height as u64
            },
            _ => false,
        }
    }

    /// Whether the element is selected.
    pub fn is_selected(&self) -> (selected: bool)
        ensures
            selected == self.selected_state.is_selected(),
    {
        match self.selected_state {
            SelectedState::Selected { .. } => true,
            SelectedState::Unselected { .. } => false,
        }
    }

    /// Takes note of the pointer: see [`Element::reacted`].
    pub fn react(&mut self, pointed: bool, click: ClickingState, now: u64, style: &Style)
        requires
            old(self).wf(),
        ensures
            *final(self) == old(self).reacted(pointed, click, now, *style),
            final(self).wf(),
    {
        if pointed {
            match self.pointer_state {
                PointerState::Hover => {},
                PointerState::Idle => {
                    self.hover_anim =
                    Transition { timestamp: now, from: self.scale, to: style.hover_scale };
                    self.pointer_state = PointerState::Hover;
                },
            }
            match click {
                ClickingState::Holding => {
                    match self.clicking_state {
                        ClickingState::Holding => {},
                        _ => {
                            self.clicking_anim =
                            Transition { timestamp: now, from: self.color_t, to: style.hold() };
                            self.clicking_state = ClickingState::Holding;
                        },
                    }
                },
                ClickingState::JustReleased => {
                    self.clicking_anim = Transition { timestamp: now, from: self.color_t, to: 0 };
                    self.clicking_state = ClickingState::JustReleased;
                },
                ClickingState::Idle => {},
            }
        } else {
            match self.pointer_state {
                PointerState::Idle => {},
                PointerState::Hover => {
                    self.pointer_state = PointerState::Idle;
                    self.hover_anim = Transition { timestamp: now, from: self.scale, to: UNIT };
                    self.clicking_anim = Transition { timestamp: now, from: self.color_t, to: 0 };
                    self.clicking_state = ClickingState::Idle;
                },
            }
        }
    }

    /// Brings the animated values up to the moment `now` (see
    /// [`Element::settled`]) and tells whether the element is at rest.
    pub fn settle(&mut self, now: u64, style: &Style) -> (rest: bool)
        requires
            old(self).wf(),
        ensures
            *final(self) == old(self).settled(now, *style),
            rest == old(self).at_rest(now),
            final(self).wf(),
    {
        let (scale, hover_done) = self.hover_anim.sample(now, HOVER_TIME);
        let select_anim = match self.selected_state {
            SelectedState::Unselected { timestamp } => Transition { timestamp, from: UNIT, to: 0 },
            SelectedState::Selected { timestamp } => Transition { timestamp, from: 0, to: UNIT },
        };
        let (select_t, select_done) = select_anim.sample(now, SELECT_TIME);
        let (color_t, click_done) = self.clicking_anim.sample(now, CLICK_TIME);
        proof {
            select_anim.lemma_value_between(now, SELECT_TIME);
            self.clicking_anim.lemma_value_between(now, CLICK_TIME);
        }
        self.scale = scale;
        self.color_t = color_t;
        self.color = style.color.lerp(&style.selected_color, select_t).lerp(
            &style.hover_color,
            color_t,
        );
        hover_done && select_done && click_done
    }
}

/// The first of the elements `0 .. n` that the pointer is on, if there is
/// one. Where elements overlap, the one with the lowest index wins.
pub open spec fn first_hit(
    elements: Seq<Element>,
    n: int,
    pointer_x: Option<u32>,
    pointer_y: Option<u32>,
) -> Option<int>
    decreases n,
{
    if n <= 0 {
        None
    } else {
        match first_hit(elements, n - 1, pointer_x, pointer_y) {
            Some(i) => Some(i),
            None => if elements[n - 1].contains(pointer_x, pointer_y) {
                Some(n - 1)
            } else {
                None
            },
        }
    }
}

/// The element that is hovered in a frame: the first that the pointer is on.
pub open spec fn hovered_element(
    elements: Seq<Element>,
    pointer_x: Option<u32>,
    pointer_y: Option<u32>,
) -> Option<int> {
    first_hit(elements, elements.len() as int, pointer_x, pointer_y)
}

/// `first_hit` finds an element that the pointer is on and that no element
/// before it is on; it finds none only if the pointer is on none.
pub proof fn lemma_first_hit(
    elements: Seq<Element>,
    n: int,
    pointer_x: Option<u32>,
    pointer_y: Option<u32>,
)
    requires
        0 <= n <= elements.len(),
    ensures
        match first_hit(elements, n, pointer_x, pointer_y) {
            Some(i) => {
                &&& 0 <= i < n
                &&& elements[i].contains(pointer_x, pointer_y)
                &&& forall|k: int| 0 <= k < i ==> !(#[trigger] elements[k]).contains(pointer_x, pointer_y)
            },
            None => forall|k: int| 0 <= k < n ==> !(#[trigger] elements[k]).contains(pointer_x, pointer_y),
        },
    decreases n,
{
    if n > 0 {
        lemma_first_hit(elements, n - 1, pointer_x, pointer_y);
    }
}

/// Every element has well-formed animation values.
pub open spec fn all_wf(elements: Seq<Element>) -> bool {
    forall|i: int| 0 <= i < elements.len() ==> (#[trigger] elements[i]).wf()
}

/// `selected` names the selected element: it is the index of a selected
/// element or nothing, and no other element is selected.
pub open spec fn selection_is(elements: Seq<Element>, selected: Option<usize>) -> bool {
    &&& selected matches Some(s) ==> s < elements.len() && elements[s as int].selected_state.is_selected()
    &&& forall|i: int|
        0 <= i < elements.len() && (#[trigger] elements[i]).selected_state.is_selected() ==> (
        selected matches Some(s) && s as int == i)
}

/// Where `selected` names the selected element, at most one element is
/// selected.
pub proof fn lemma_at_most_one_selected(
    elements: Seq<Element>,
    selected: Option<usize>,
    i: int,
    j: int,
)
    requires
        selection_is(elements, selected),
        0 <= i < elements.len(),
        0 <= j < elements.len(),
        elements[i].selected_state.is_selected(),
        elements[j].selected_state.is_selected(),
    ensures
        i == j,
{
}

/// The elements after the selection of the element at `index` was toggled:
/// that element changes sides, every other selected element is deselected.
pub open spec fn toggled(elements: Seq<Element>, index: int, now: u64) -> Seq<Element> {
    Seq::new(
        elements.len(),
        |i: int| elements[i].with_click(i == index, ClickingState::JustReleased, now),
    )
}

/// The elements after every selected one was deselected.
pub open spec fn deselected(elements: Seq<Element>, now: u64) -> Seq<Element> {
    Seq::new(elements.len(), |i: int| elements[i].with_click(false, ClickingState::JustReleased, now))
}

/// The elements after one frame, their places given: each one takes its
/// step, pointed at if it is the hovered element.
pub open spec fn advanced(
    elements: Seq<Element>,
    pointer_x: Option<u32>,
    pointer_y: Option<u32>,
    click: ClickingState,
    now: u64,
    style: Style,
) -> Seq<Element> {
    Seq::new(
        elements.len(),
        |i: int|
            elements[i].stepped(
                hovered_element(elements, pointer_x, pointer_y) == Some(i),
                click,
                now,
                style,
            ),
    )
}

/// The selected element after one frame: a released button selects the
/// hovered element unless it was selected, and leaves none selected
/// otherwise; without a released button the selection stays.
pub open spec fn selected_after(
    elements: Seq<Element>,
    selected: Option<usize>,
    pointer_x: Option<u32>,
    pointer_y: Option<u32>,
    click: ClickingState,
) -> Option<usize> {
    if click is JustReleased {
        match hovered_element(elements, pointer_x, pointer_y) {
            Some(h) => if elements[h].selected_state.is_selected() {
                None
            } else {
                Some(h as usize)
            },
            None => None,
        }
    } else {
        selected
    }
}

/// Whether a frame leaves something to animate: an element whose animations
/// have not all ended, or a button that was released on no element.
pub open spec fn animating_after(
    elements: Seq<Element>,
    pointer_x: Option<u32>,
    pointer_y: Option<u32>,
    click: ClickingState,
    now: u64,
    style: Style,
) -> bool {
    ||| exists|i: int|
        0 <= i < elements.len() && !(#[trigger] advanced(
            elements,
            pointer_x,
            pointer_y,
            click,
            now,
            style,
        )[i]).at_rest(now)
    ||| click is JustReleased && hovered_element(elements, pointer_x, pointer_y) is None
}

/// What a frame found out about the elements as a whole.
#[derive(Debug, Clone, Copy, PartialEq, Eq, Structural)]
pub struct FrameOutcome {
    /// The element under the pointer.
    pub hovered: Option<usize>,
    /// The selected element.
    pub selected: Option<usize>,
    /// Whether an animation is still running.
    pub animating: bool,
}

/// Toggles the selection of the element at `index` and deselects every other
/// element. Returns the index of the selected element, if one is left.
pub fn toggle_selection_at(elements: &mut Vec<Element>, index: usize, timestamp: u64) -> (selected:
    Option<usize>)
    requires
        index < old(elements)@.len(),
    ensures
        final(elements)@ == toggled(old(elements)@, index as int, timestamp),
        selected == if old(elements)@[index as int].selected_state.is_selected() {
            None
        } else {
            Some(index)
        },
{
    let mut selected: Option<usize> = None;
    let mut i: usize = 0;
    while i < elements.len()
        invariant
            i <= elements@.len(),
            elements@.len() == old(elements)@.len(),
            index < elements@.len(),
            forall|j: int|
                0 <= j < i ==> #[trigger] elements@[j] == old(elements)@[j].with_click(
                    j == index,
                    ClickingState::JustReleased,
                    timestamp,
                ),
            forall|j: int| i <= j < elements@.len() ==> #[trigger] elements@[j] == old(elements)@[j],
            selected == if i > index && !old(elements)@[index as int].selected_state.is_selected() {
                Some(index)
            } else {
                None
            },
        decreases elements@.len() - i,
    {
        let mut element = elements[i];
        if i == index {
            if element.is_selected() {
                element.selected_state = SelectedState::Unselected { timestamp };
            } else {
                element.selected_state = SelectedState::Selected { timestamp };
                selected = Some(index);
            }
        } else if element.is_selected() {
            element.selected_state = SelectedState::Unselected { timestamp };
        }
        elements[i] = element;
        i += 1;
    }
    assert(elements@ =~= toggled(old(elements)@, index as int, timestamp));
    selected
}

/// Deselects every selected element.
pub fn deselect_all(elements: &mut Vec<Element>, timestamp: u64)
    ensures
        final(elements)@ == deselected(old(elements)@, timestamp),
{
    let mut i: usize = 0;
    while i < elements.len()
        invariant
            i <= elements@.len(),
            elements@.len() == old(elements)@.len(),
            forall|j: int|
                0 <= j < i ==> #[trigger] elements@[j] == old(elements)@[j].with_click(
                    false,
                    ClickingState::JustReleased,
                    timestamp,
                ),
            forall|j: int| i <= j < elements@.len() ==> #[trigger] elements@[j] == old(elements)@[j],
        decreases elements@.len() - i,
    {
        let mut element = elements[i];
        if element.is_selected() {
            element.selected_state = SelectedState::Unselected { timestamp };
        }
        elements[i] = element;
        i += 1;
    }
    assert(elements@ =~= deselected(old(elements)@, timestamp));
}

/// Runs the interaction of one frame over elements whose places are set:
/// finds the hovered element, lets every element take note of the pointer,
/// deals with a click, and brings the animated values up to `now`.
pub fn update_elements(
    elements: &mut Vec<Element>,
    selected: Option<usize>,
    pointer_x: Option<u32>,
    pointer_y: Option<u32>,
    click: ClickingState,
    now: u64,
    style: &Style,
) -> (outcome: FrameOutcome)
    requires
        all_wf(old(elements)@),
        selection_is(old(elements)@, selected),
    ensures
        final(elements)@ == advanced(old(elements)@, pointer_x, pointer_y, click, now, *style),
        all_wf(final(elements)@),
        match outcome.hovered {
            Some(h) => hovered_element(old(elements)@, pointer_x, pointer_y) == Some(h as int),
            None => hovered_element(old(elements)@, pointer_x, pointer_y) is None,
        },
        outcome.selected == selected_after(old(elements)@, selected, pointer_x, pointer_y, click),
        selection_is(final(elements)@, outcome.selected),
        outcome.animating == animating_after(
            old(elements)@,
            pointer_x,
            pointer_y,
            click,
            now,
            *style,
        ),
{
    let ghost before = elements@;
    let ghost target = hovered_element(before, pointer_x, pointer_y);
    let count = elements.len();
    let mut hovered: Option<usize> = None;
    let mut i: usize = 0;
    while i < count
        invariant
            i <= count,
            count == before.len(),
            elements@.len() == count,
            all_wf(before),
            target == hovered_element(before, pointer_x, pointer_y),
            match hovered {
                Some(h) => first_hit(before, i as int, pointer_x, pointer_y) == Some(h as int),
                None => first_hit(before, i as int, pointer_x, pointer_y) is None,
            },
            forall|j: int|
                0 <= j < i ==> #[trigger] elements@[j] == before[j].reacted(
                    target == Some(j),
                    click,
                    now,
                    *style,
                ),
            forall|j: int| i <= j < count ==> #[trigger] elements@[j] == before[j],
            forall|j: int| 0 <= j < count ==> (#[trigger] elements@[j]).wf(),
        decreases count - i,
    {
        let mut element = elements[i];
        let pointed = hovered.is_none() && element.is_pointed(pointer_x, pointer_y);
        proof {
            lemma_first_hit(before, i as int, pointer_x, pointer_y);
            lemma_first_hit(before, i as int + 1, pointer_x, pointer_y);
            lemma_first_hit(before, count as int, pointer_x, pointer_y);
            assert(pointed == (target == Some(i as int)));
        }
        if pointed {
            hovered = Some(i);
        }
        element.react(pointed, click, now, style);
        elements[i] = element;
        i += 1;
    }
    let ghost reacted = elements@;
    proof {
        lemma_first_hit(before, count as int, pointer_x, pointer_y);
    }
    let mut new_selected = selected;
    match click {
        ClickingState::JustReleased => {
            match hovered {
                Some(h) => {
                    new_selected = toggle_selection_at(elements, h, now);
                },
                None => {
                    deselect_all(elements, now);
                    new_selected = None;
                },
            }
        },
        _ => {},
    }
    let ghost clicked = elements@;
    assert forall|j: int| 0 <= j < count implies #[trigger] clicked[j] == before[j].reacted(
        target == Some(j),
        click,
        now,
        *style,
    ).with_click(target == Some(j), click, now) && clicked[j].wf() by {
        assert(reacted[j].wf());
    }
    assert(selection_is(clicked, new_selected) && new_selected == selected_after(
        before,
        selected,
        pointer_x,
        pointer_y,
        click,
    )) by {
        assert forall|j: int| 0 <= j < count implies (#[trigger] reacted[j]).selected_state
            == before[j].selected_state by {}
        if let Some(s) = selected {
            assert(before[s as int].selected_state.is_selected());
        }
        if let Some(h) = hovered {
            assert(reacted[h as int].selected_state == before[h as int].selected_state);
        }
    }
    let mut all_rest = true;
    let mut i: usize = 0;
    while i < count
        invariant
            i <= count,
            count == clicked.len(),
            elements@.len() == count,
            forall|j: int| 0 <= j < i ==> #[trigger] elements@[j] == clicked[j].settled(now, *style),
            forall|j: int| i <= j < count ==> #[trigger] elements@[j] == clicked[j],
            forall|j: int| 0 <= j < count ==> (#[trigger] elements@[j]).wf(),
            all_rest == forall|j: int| 0 <= j < i ==> (#[trigger] clicked[j]).at_rest(now),
        decreases count - i,
    {
        let mut element = elements[i];
        let rest = element.settle(now, style);
        if !rest {
            all_rest = false;
        }
        elements[i] = element;
        i += 1;
    }
    proof {
        let after = advanced(before, pointer_x, pointer_y, click, now, *style);
        assert(elements@ =~= after);
        assert forall|j: int| 0 <= j < count implies (#[trigger] after[j]).at_rest(now)
            == clicked[j].at_rest(now) by {}
        assert(selection_is(elements@, new_selected)) by {
            assert forall|j: int| 0 <= j < count implies (#[trigger] elements@[j]).selected_state
                == clicked[j].selected_state by {}
        }
        if all_rest {
            assert forall|j: int| 0 <= j < count implies (#[trigger] after[j]).at_rest(now) by {
                assert(clicked[j].at_rest(now));
            }
        } else {
            let j = choose|j: int| 0 <= j < count && !(#[trigger] clicked[j]).at_rest(now);
            assert(!after[j].at_rest(now));
        }
    }
    let released_nowhere = match click {
        ClickingState::JustReleased => hovered.is_none(),
        _ => false,
    };
    FrameOutcome { hovered, selected: new_selected, animating: !all_rest || released_nowhere }
}

/// Whether two elements have the same place on the canvas.
pub open spec fn same_box(a: Element, b: Element) -> bool {
    a.x == b.x && a.y == b.y && a.width == b.width && a.height == b.height
}

/// Whether two elements are drawn in the same shape: they have the same
/// place and the same scale.
pub open spec fn same_shape(a: Element, b: Element) -> bool {
    same_box(a, b) && a.scale == b.scale
}

/// The hovered element depends on the places of the elements alone.
pub proof fn lemma_first_hit_by_boxes(
    a: Seq<Element>,
    b: Seq<Element>,
    n: int,
    pointer_x: Option<u32>,
    pointer_y: Option<u32>,
)
    requires
        0 <= n <= a.len(),
        a.len() == b.len(),
        forall|i: int| 0 <= i < a.len() ==> same_box(#[trigger] a[i], b[i]),
    ensures
        first_hit(a, n, pointer_x, pointer_y) == first_hit(b, n, pointer_x, pointer_y),
    decreases n,
{
    if n > 0 {
        lemma_first_hit_by_boxes(a, b, n - 1, pointer_x, pointer_y);
        assert(same_box(a[n - 1], b[n - 1]));
    }
}

/// A step leaves the place of an element and the fraction it grows in from
/// as they were.
pub proof fn lemma_step_keeps_box(
    e: Element,
    pointed: bool,
    click: ClickingState,
    now: u64,
    style: Style,
)
    ensures
        same_box(e.stepped(pointed, click, now, style), e),
        e.stepped(pointed, click, now, style).start_scale_t == e.start_scale_t,
{
}

/// A second step at the same moment, with the same pointer and button,
/// changes neither the shape of an element nor its pointer and button state,
/// its tint or its running animations. Unless the button was just released,
/// which toggles the selection once more, it changes nothing at all.
pub proof fn lemma_step_twice(
    e: Element,
    pointed: bool,
    click: ClickingState,
    now: u64,
    style: Style,
)
    ensures
        ({
            let once = e.stepped(pointed, click, now, style);
            let twice = once.stepped(pointed, click, now, style);
            &&& same_shape(twice, once)
            &&& twice.color_t == once.color_t
            &&& twice.pointer_state == once.pointer_state
            &&& twice.clicking_state == once.clicking_state
            &&& twice.hover_anim == once.hover_anim
            &&& twice.clicking_anim == once.clicking_anim
            &&& !(click is JustReleased) ==> twice == once
        }),
{
    let entered = Transition { timestamp: now, from: e.scale, to: style.hover_scale };
    let left = Transition { timestamp: now, from: e.scale, to: UNIT };
    let held = Transition { timestamp: now, from: e.color_t, to: style.hold_target() as u32 };
    let released = Transition { timestamp: now, from: e.color_t, to: 0 };
    entered.lemma_value_at_start(HOVER_TIME);
    left.lemma_value_at_start(HOVER_TIME);
    held.lemma_value_at_start(CLICK_TIME);
    released.lemma_value_at_start(CLICK_TIME);
}

/// A second frame at the same moment, with the same pointer and button, over
/// elements in the same places: every element keeps its shape, its tint and
/// its pointer and button state, and the same element is hovered. Unless the
/// button was just released, every element stays as it was.
pub proof fn lemma_advanced_twice(
    elements: Seq<Element>,
    pointer_x: Option<u32>,
    pointer_y: Option<u32>,
    click: ClickingState,
    now: u64,
    style: Style,
)
    ensures
        ({
            let once = advanced(elements, pointer_x, pointer_y, click, now, style);
            let twice = advanced(once, pointer_x, pointer_y, click, now, style);
            &&& twice.len() == once.len()
            &&& hovered_element(once, pointer_x, pointer_y) == hovered_element(
                elements,
                pointer_x,
                pointer_y,
            )
            &&& forall|i: int|
                0 <= i < once.len() ==> same_shape(#[trigger] twice[i], once[i]) && twice[i].color_t
                    == once[i].color_t && twice[i].pointer_state == once[i].pointer_state
                    && twice[i].clicking_state == once[i].clicking_state
            &&& !(click is JustReleased) ==> twice == once
        }),
{
    let once = advanced(elements, pointer_x, pointer_y, click, now, style);
    let twice = advanced(once, pointer_x, pointer_y, click, now, style);
    let hovered = hovered_element(elements, pointer_x, pointer_y);
    assert forall|i: int| 0 <= i < once.len() implies same_box(#[trigger] once[i], elements[i]) by {
        lemma_step_keeps_box(elements[i], hovered == Some(i), click, now, style);
    }
    lemma_first_hit_by_boxes(once, elements, once.len() as int, pointer_x, pointer_y);
    assert forall|i: int| 0 <= i < once.len() implies same_shape(#[trigger] twice[i], once[i])
        && twice[i].color_t == once[i].color_t && twice[i].pointer_state == once[i].pointer_state
        && twice[i].clicking_state == once[i].clicking_state && (!(click is JustReleased)
        ==> twice[i] == once[i]) by {
        lemma_step_twice(elements[i], hovered == Some(i), click, now, style);
    }
    if !(click is JustReleased) {
        assert(twice =~= once);
    }
}

/// A step keeps the animation values of an element well-formed.
pub proof fn lemma_step_wf(
    e: Element,
    pointed: bool,
    click: ClickingState,
    now: u64,
    style: Style,
)
    requires
        e.wf(),
    ensures
        e.stepped(pointed, click, now, style).wf(),
{
    let clicked = e.reacted(pointed, click, now, style).with_click(pointed, click, now);
    assert(0 <= style.hold_target() <= UNIT);
    assert(clicked.clicking_anim.from <= UNIT && clicked.clicking_anim.to <= UNIT);
    clicked.clicking_anim.lemma_value_between(now, CLICK_TIME);
}

/// A frame keeps the elements well-formed and the selection in order: the
/// element that is recorded as selected after the frame is the only one
/// that is selected, if any is.
pub proof fn lemma_advanced_inv(
    elements: Seq<Element>,
    selected: Option<usize>,
    pointer_x: Option<u32>,
    pointer_y: Option<u32>,
    click: ClickingState,
    now: u64,
    style: Style,
)
    requires
        elements.len() <= usize::MAX,
        all_wf(elements),
        selection_is(elements, selected),
    ensures
        all_wf(advanced(elements, pointer_x, pointer_y, click, now, style)),
        selection_is(
            advanced(elements, pointer_x, pointer_y, click, now, style),
            selected_after(elements, selected, pointer_x, pointer_y, click),
        ),
{
    let after = advanced(elements, pointer_x, pointer_y, click, now, style);
    let hovered = hovered_element(elements, pointer_x, pointer_y);
    lemma_first_hit(elements, elements.len() as int, pointer_x, pointer_y);
    assert forall|i: int| 0 <= i < after.len() implies (#[trigger] after[i]).wf() by {
        assert(elements[i].wf());
        lemma_step_wf(elements[i], hovered == Some(i), click, now, style);
    }
    assert forall|i: int| 0 <= i < after.len() implies (#[trigger] after[i]).selected_state
        == elements[i].with_click(hovered == Some(i), click, now).selected_state by {}
    if let Some(s) = selected {
        assert(elements[s as int].selected_state.is_selected());
    }
}

} // verus!
