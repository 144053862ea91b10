use vstd::prelude::*;

use crate::timing::{
    age, alpha_num, PictureState, ZoomDirection, SHOW_DURATION, TRANSITION_DURATION,
};

verus! {

/// What one tick of the presentation did or asks for.
#[derive(PartialEq, Eq, Structural, Clone, Copy, Debug)]
pub enum Step {
    /// The next picture had faded in and became the current one.
    Rotate,
    /// A new picture is wanted: poll the source, and hand over what it gives.
    Fetch,
    /// Nothing to do this tick.
    Hold,
}

/// The two picture slots on screen: the current picture, and the next one
/// fading in over it. `P` is the picture as the renderer holds it.
pub struct Presentation<P> {
    pub current: Option<(P, PictureState)>,
    pub next: Option<(P, PictureState)>,
}

impl<P> Presentation<P> {
    /// What a tick at `now` does: a next picture that has fully faded in
    /// takes over; with no next picture, one is wanted when there is no
    /// current picture or when the current one reaches the end of its
    /// showing time less the transition.
    pub open spec fn step_spec(&self, now: u64) -> Step {
        match self.next {
            Some(n) => if age(n.1.start, now) > TRANSITION_DURATION {
                Step::Rotate
            } else {
                Step::Hold
            },
            None => match self.current {
                None => Step::Fetch,
                Some(c) => if age(c.1.start, now) >= SHOW_DURATION - TRANSITION_DURATION {
                    Step::Fetch
                } else {
                    Step::Hold
                },
            },
        }
    }

    /// The slots after a tick at `now`.
    pub open spec fn updated(self, now: u64) -> Presentation<P> {
        if self.step_spec(now) == Step::Rotate {
            Presentation { current: self.next, next: None }
        } else {
            self
        }
    }

    /// The zoom direction of the next picture: the opposite of the current
    /// one's, or outwards for the first picture.
    pub open spec fn next_direction(self) -> ZoomDirection {
        match self.current {
            Some(c) => c.1.zoom_direction.negated(),
            None => ZoomDirection::Out,
        }
    }

    /// The slots after `pic` arrived at `now`.
    pub open spec fn received(self, pic: P, now: u64) -> Presentation<P> {
        Presentation {
            current: self.current,
            next: Some((pic, PictureState { start: now, zoom_direction: self.next_direction() })),
        }
    }

    /// Empty slots: the first tick asks for a picture.
    pub fn new() -> (r: Presentation<P>)
        ensures
            r.current is None,
            r.next is None,
    {
        Presentation { current: None, next: None }
    }

    /// Advances the slots to `now` and says what was done or is wanted.
    /// Never waits: after `Step::Fetch` the caller polls its source and
    /// hands over a picture with `receive`, or tries again next tick.
    pub fn update(&mut self, now: u64) -> (r: Step)
        ensures
            r == old(self).step_spec(now),
            *final(self) == old(self).updated(now),
    {
        let step = match &self.next {
            Some(n) => if n.1.has_transitioned(now) {
                Step::Rotate
            } else {
                Step::Hold
            },
            None => match &self.current {
                None => Step::Fetch,
                Some(c) => {
                    let shown = if now >= c.1.start {
                        now - c.1.start
                    } else {
                        0
                    };
                    if shown >= SHOW_DURATION - TRANSITION_DURATION {
                        Step::Fetch
                    } else {
                        Step::Hold
                    }
                },
            },
        };
        if let Step::Rotate = step {
            self.current = self.next.take();
        }
        step
    }

    /// Takes `pic` as the next picture, starting at `now`, zooming the other
    /// way from the current one.
    pub fn receive(&mut self, pic: P, now: u64)
        requires
            old(self).next is None,
        ensures
            *final(self) == old(self).received(pic, now),
    {
        let zoom_direction = match &self.current {
            Some(c) => c.1.zoom_direction.not(),
            None => ZoomDirection::Out,
        };
        self.next = Some((pic, PictureState { start: now, zoom_direction }));
    }
}

/// The first picture zooms outwards, and each picture that follows a
/// current one zooms the other way: when the next picture takes over at
/// `t1`, any ticks until the following picture arrives at `t2` leave the
/// slots alone, and that picture zooms opposite to the one that took over.
pub proof fn lemma_zoom_alternates<P>(s: Presentation<P>, t1: u64, ticks: Seq<u64>, pic: P, t2: u64)
    requires
        s.step_spec(t1) == Step::Rotate,
    ensures
        (Presentation::<P> { current: None, next: None }).received(pic, t2).next.unwrap().1.zoom_direction
            == ZoomDirection::Out,
        s.updated(t1).current == s.next,
        forall|i: int| 0 <= i < ticks.len() ==> s.updated(t1).updated(#[trigger] ticks[i]) == s.updated(t1),
        s.updated(t1).received(pic, t2).next.unwrap().1.zoom_direction
            == s.next.unwrap().1.zoom_direction.negated(),
{
}

/// The next picture takes over exactly when it exists and has been fading in
/// for longer than the transition; until then the current picture stays,
/// whether or not a next one is there.
pub proof fn lemma_rotation_rule<P>(s: Presentation<P>, now: u64)
    ensures
        (s.updated(now).current != s.current || s.updated(now).next != s.next) ==> s.step_spec(now)
            == Step::Rotate,
        s.step_spec(now) == Step::Rotate <==> ((s.next is Some) && age(s.next.unwrap().1.start, now)
            > TRANSITION_DURATION),
        s.step_spec(now) == Step::Rotate ==> (s.updated(now).current == s.next) && (s.updated(
            now,
        ).next is None),
        s.step_spec(now) != Step::Rotate ==> s.updated(now) == s,
{
}

/// The opacity is 0 when a picture starts, 1 once the transition is over
/// and from then on, and never falls as time goes on.
pub proof fn lemma_alpha_fades_in(start: u64, t1: u64, t2: u64)
    ensures
        alpha_num(start, start) == 0,
        age(start, t1) >= TRANSITION_DURATION ==> alpha_num(start, t1) == TRANSITION_DURATION,
        t1 <= t2 ==> alpha_num(start, t1) <= alpha_num(start, t2),
        alpha_num(start, t1) <= TRANSITION_DURATION,
{
}

} // verus!
