//! The scene stack: the ordered stack of gameplay modes and the
//! transition protocol that drives their lifecycle.
//!
//! The stack is never empty; exactly its top scene receives the frame's
//! update and prerender. One transition request is honoured per frame,
//! and teardown and setup are strictly paired: the displaced top is fully
//! deinitialized before the incoming top is initialized, so their side
//! effects never overlap.

use vstd::prelude::*;

use crate::error::FatalError;
use crate::frustum::ObjectBound;
use crate::render_objects::{RenderObjects, RenderQueueData};
use crate::scene::{MaybeMessage, Scene, SceneOp};

verus! {

/// One lifecycle call the protocol made, in order.
#[derive(Clone, Copy, PartialEq, Eq, Structural, Debug)]
pub enum LifecycleEvent {
    Deinit,
    Init,
}

/// Setup strictly alternates with teardown: every `Init` directly follows
/// a `Deinit`, so two scenes are never set up back to back.
pub open spec fn events_alternate(s: Seq<LifecycleEvent>) -> bool {
    forall|i: int| 0 <= i < s.len() && (#[trigger] s[i]) is Init ==> i > 0 && s[i - 1] is Deinit
}

/// Alternation survives running frames back to back: if each frame's
/// event list alternates and opens with a teardown, the whole session's
/// log alternates — across any sequence of transitions, no scene is ever
/// set up twice without a teardown between.
pub proof fn lemma_alternation_concat(a: Seq<LifecycleEvent>, b: Seq<LifecycleEvent>)
    requires
        events_alternate(a),
        events_alternate(b),
        b.len() > 0 ==> b[0] is Deinit,
    ensures
        events_alternate(a + b),
{
    let c = a + b;
    assert forall|i: int| 0 <= i < c.len() && (#[trigger] c[i]) is Init implies i > 0 && c[i - 1]
        is Deinit by {
        if i < a.len() {
            assert(c[i] == a[i]);
            assert(c[i - 1] == a[i - 1]);
        } else {
            assert(c[i] == b[i - a.len()]);
            if i - a.len() > 0 {
                assert(c[i - 1] == b[i - a.len() - 1]);
            }
        }
    }
}

/// The well-formedness a scene must keep for the stack to run it.
pub open spec fn scene_wf(s: Scene) -> bool {
    match s {
        Scene::Classic(c) => c.wf(),
        Scene::HitAndDodge(h) => h.wf(),
        _ => true,
    }
}

/// Does a transition request carry only well-formed payloads?
pub open spec fn op_wf(op: SceneOp) -> bool {
    match op {
        SceneOp::NoOp => true,
        SceneOp::Push(s, msg) => scene_wf(*s) && (msg is Some ==> msg.unwrap().wf()),
        SceneOp::Pop(_, msg) => msg is Some ==> msg.unwrap().wf(),
        SceneOp::Replace(s, msg) => scene_wf(*s) && (msg is Some ==> msg.unwrap().wf()),
    }
}

/// Does this scene's teardown clear the render queue?
pub open spec fn scene_clears(s: Scene) -> bool {
    s is Classic || s is HitAndDodge
}

/// The static record this scene's setup appends, if any: the gameplay
/// rounds push their backdrop, the flat scenes push nothing.
pub open spec fn scene_static_push(s: Scene) -> Option<(RenderQueueData, ObjectBound)> {
    match s {
        Scene::Classic(_) => Some(crate::classic_game_scene::spec_backdrop_record()),
        Scene::HitAndDodge(_) => Some(crate::hit_and_dodge_scene::spec_floor_record()),
        _ => None,
    }
}

/// Why setting this scene up rejects the message, if it does: only the
/// hit-and-dodge round validates its payload.
pub open spec fn scene_rejects(s: Scene, message: MaybeMessage) -> Option<FatalError> {
    match s {
        Scene::HitAndDodge(_) => crate::hit_and_dodge_scene::spec_rejects(message),
        _ => None,
    }
}

/// Setup relates the incoming scene to the scene that ends on top: the
/// variant is kept and the inner state follows that variant's
/// `spec_inited`; the flat scenes are untouched.
pub open spec fn scene_inited_rel(pre: Scene, post: Scene, message: MaybeMessage) -> bool {
    match (pre, post) {
        (Scene::MainMenu(a), Scene::MainMenu(b)) => a == b,
        (Scene::Classic(a), Scene::Classic(b)) => *b == (*a).spec_inited(),
        (Scene::HitAndDodge(a), Scene::HitAndDodge(b)) => *b == (*a).spec_inited(message),
        (Scene::Pause(a), Scene::Pause(b)) => a == b,
        (Scene::Score(a), Scene::Score(b)) => a == b,
        _ => false,
    }
}

/// The scene this request asks the protocol to set up (for a request the
/// out-of-range check admits): the pushed or replacing payload, or the
/// scene a pop uncovers.
pub open spec fn op_incoming(op: SceneOp, pre: Seq<Scene>) -> Scene {
    match op {
        SceneOp::NoOp => pre.last(),
        SceneOp::Push(sc, _) => *sc,
        SceneOp::Pop(n, _) => pre[pre.len() - 1 - n],
        SceneOp::Replace(sc, _) => *sc,
    }
}

/// The message this request hands the incoming scene.
pub open spec fn op_message(op: SceneOp) -> MaybeMessage {
    match op {
        SceneOp::NoOp => None,
        SceneOp::Push(_, m) => m,
        SceneOp::Pop(_, m) => m,
        SceneOp::Replace(_, m) => m,
    }
}

/// Why the protocol rejects this request, if it does (beyond the
/// out-of-range pop): the incoming scene's setup rejects the message.
pub open spec fn op_rejects(op: SceneOp, pre: Seq<Scene>) -> Option<FatalError> {
    match op {
        SceneOp::NoOp => None,
        _ => scene_rejects(op_incoming(op, pre), op_message(op)),
    }
}

/// The ordered stack of scenes. The bottom is index zero; the active
/// scene is the last element.
pub struct SceneStack {
    pub scenes: Vec<Scene>,
}

impl SceneStack {
    /// The stack invariant: never empty, every scene well formed.
    pub open spec fn wf(self) -> bool {
        &&& self.scenes@.len() >= 1
        &&& forall|i: int| 0 <= i < self.scenes@.len() ==> scene_wf(#[trigger] self.scenes@[i])
    }

    pub fn new(first: Scene) -> (r: SceneStack)
        requires
            scene_wf(first),
        ensures
            r.wf(),
            r.scenes@.len() == 1,
            r.scenes@[0] == first,
    {
        let mut scenes: Vec<Scene> = Vec::new();
        scenes.push(first);
        SceneStack { scenes }
    }

    /// How many scenes are stacked.
    pub fn len(&self) -> (r: usize)
        ensures
            r == self.scenes@.len(),
    {
        self.scenes.len()
    }

    /// Borrow the active scene for this frame's update and prerender.
    pub fn top_mut(&mut self) -> (r: &mut Scene)
        requires
            old(self).wf(),
        ensures
            *r == old(self).scenes@.last(),
            final(self).scenes@ == old(self).scenes@.update(
                old(self).scenes@.len() - 1,
                *final(r),
            ),
    {
        let last = self.scenes.len() - 1;
        &mut self.scenes[last]
    }

    /// Honour one transition request: the displaced top is torn down
    /// before the incoming top is set up, a `Pop` that would empty the
    /// stack (or pop nothing) is fatal and leaves stack and queue
    /// untouched, and the stack never becomes empty. Success is owed
    /// whenever the pop is in range and the incoming scene's setup does
    /// not reject the message; on success the incoming scene — as its
    /// setup leaves it — is the new top, and the queue holds exactly what
    /// the teardown/setup pair made of it.
    #[verifier::rlimit(100)]
    pub fn apply_scene_op(&mut self, op: SceneOp, queue: &mut RenderObjects) -> (r: Result<
        Vec<LifecycleEvent>,
        FatalError,
    >)
        requires
            old(self).wf(),
            op_wf(op),
        ensures
            final(self).scenes@.len() >= 1,
            (r == Err::<Vec<LifecycleEvent>, FatalError>(FatalError::PopOutOfRange)) <==> (op
                is Pop && (op->Pop_0 == 0 || op->Pop_0 >= old(self).scenes@.len())),
            r is Ok <==> !(op is Pop && (op->Pop_0 == 0 || op->Pop_0 >= old(self).scenes@.len())) && op_rejects(op, old(self).scenes@) is None,
            r == Err::<Vec<LifecycleEvent>, FatalError>(FatalError::PopOutOfRange) ==> final(self).scenes@ == old(self).scenes@ && *final(queue) == *old(queue),
            match r {
                Ok(events) => {
                    &&& final(self).wf()
                    &&& events_alternate(events@)
                    &&& ({
                        let cleared = match op {
                            SceneOp::NoOp => false,
                            SceneOp::Push(_, _) => scene_clears(old(self).scenes@.last()),
                            SceneOp::Replace(_, _) => scene_clears(old(self).scenes@.last()),
                            SceneOp::Pop(n, _) => exists|i: int|
                                old(self).scenes@.len() - n <= i < old(self).scenes@.len()
                                    && scene_clears(#[trigger] old(self).scenes@[i]),
                        };
                        let mid_s = if cleared {
                            Seq::<(RenderQueueData, ObjectBound)>::empty()
                        } else {
                            old(queue).render_objects_static@
                        };
                        let mid_d = if cleared {
                            Seq::<(RenderQueueData, ObjectBound)>::empty()
                        } else {
                            old(queue).render_objects@
                        };
                        match op {
                            SceneOp::NoOp => *final(queue) == *old(queue),
                            _ => {
                                &&& final(queue).render_objects@ == mid_d
                                &&& final(queue).render_objects_static@ == (
                                match scene_static_push(op_incoming(op, old(self).scenes@)) {
                                    Some(rec) => mid_s.push(rec),
                                    None => mid_s,
                                })
                            },
                        }
                    })
                    &&& match op {
                        SceneOp::NoOp => {
                            &&& events@.len() == 0
                            &&& final(self).scenes@ == old(self).scenes@
                        },
                        SceneOp::Push(sc, m) => {
                            &&& events@.len() == 2
                            &&& events@[0] is Deinit && events@[1] is Init
                            &&& final(self).scenes@.len() == old(self).scenes@.len() + 1
                            &&& forall|i: int|
                                0 <= i < old(self).scenes@.len() ==> final(self).scenes@[i]
                                    == old(self).scenes@[i]
                            &&& scene_inited_rel(*sc, final(self).scenes@.last(), m)
                        },
                        SceneOp::Pop(n, m) => {
                            &&& events@.len() == n + 1
                            &&& forall|i: int| 0 <= i < n ==> (#[trigger] events@[i]) is Deinit
                            &&& events@.last() is Init
                            &&& final(self).scenes@.len() == old(self).scenes@.len() - n
                            &&& forall|i: int|
                                0 <= i < final(self).scenes@.len() - 1 ==> final(self).scenes@[i]
                                    == old(self).scenes@[i]
                            &&& scene_inited_rel(
                                old(self).scenes@[old(self).scenes@.len() - 1 - n],
                                final(self).scenes@.last(),
                                m,
                            )
                        },
                        SceneOp::Replace(sc, m) => {
                            &&& events@.len() == 2
                            &&& events@[0] is Deinit && events@[1] is Init
                            &&& final(self).scenes@.len() == old(self).scenes@.len()
                            &&& forall|i: int|
                                0 <= i < old(self).scenes@.len() - 1 ==> final(self).scenes@[i]
                                    == old(self).scenes@[i]
                            &&& scene_inited_rel(*sc, final(self).scenes@.last(), m)
                        },
                    }
                },
                Err(e) => e == FatalError::PopOutOfRange || Some(e) == op_rejects(
                    op,
                    old(self).scenes@,
                ),
            },
    {
        match op {
            SceneOp::NoOp => Ok(Vec::new()),
            SceneOp::Push(new_scene, message) => {
                let ghost pre_top = self.scenes@.last();
                let mut events: Vec<LifecycleEvent> = Vec::new();
                let last = self.scenes.len() - 1;
                let top = &mut self.scenes[last];
                top.deinit(queue);
                events.push(LifecycleEvent::Deinit);
                proof {
                    if scene_clears(pre_top) {
                        assert(queue.render_objects@ =~= Seq::<
                            (RenderQueueData, ObjectBound),
                        >::empty());
                        assert(queue.render_objects_static@ =~= Seq::<
                            (RenderQueueData, ObjectBound),
                        >::empty());
                    }
                }
                let ghost inc0 = *new_scene;
                let mut incoming: Scene = *new_scene;
                match incoming.init(&message, queue) {
                    Ok(()) => {},
                    Err(e) => {
                        proof {
                            assert(Some(e) == scene_rejects(inc0, message));
                        }
                        return Err(e);
                    },
                }
                proof {
                    assert(scene_inited_rel(inc0, incoming, message));
                }
                self.scenes.push(incoming);
                events.push(LifecycleEvent::Init);
                proof {
                    assert(events@.len() == 2);
                    assert(events@[0] is Deinit && events@[1] is Init);
                    assert(scene_wf(self.scenes@.last()));
                    assert forall|i: int|
                        0 <= i < self.scenes@.len() implies scene_wf(
                        #[trigger] self.scenes@[i],
                    ) by {
                        if i < old(self).scenes@.len() {
                            assert(self.scenes@[i] == old(self).scenes@[i]);
                            assert(scene_wf(old(self).scenes@[i]));
                        }
                    }
                }
                Ok(events)
            },
            SceneOp::Pop(n, message) => {
                if n == 0 || n as usize >= self.scenes.len() {
                    return Err(FatalError::PopOutOfRange);
                }
                let ghost s0 = self.scenes@;
                let ghost q0 = *queue;
                let mut events: Vec<LifecycleEvent> = Vec::new();
                let mut k: u32 = 0;
                while k < n
                    invariant
                        k <= n,
                        n < s0.len(),
                        self.scenes@.len() == s0.len() - k,
                        forall|i: int|
                            0 <= i < self.scenes@.len() ==> self.scenes@[i] == #[trigger] s0[i],
                        forall|i: int| 0 <= i < s0.len() ==> scene_wf(#[trigger] s0[i]),
                        events@.len() == k,
                        forall|i: int| 0 <= i < k ==> (#[trigger] events@[i]) is Deinit,
                        ({
                            let cleared = exists|i: int|
                                s0.len() - k <= i < s0.len() && scene_clears(#[trigger] s0[i]);
                            if cleared {
                                queue.render_objects@ == Seq::<
                                    (RenderQueueData, ObjectBound),
                                >::empty() && queue.render_objects_static@ == Seq::<
                                    (RenderQueueData, ObjectBound),
                                >::empty()
                            } else {
                                *queue == q0
                            }
                        }),
                    decreases n - k,
                {
                    let ghost kpre = k as int;
                    let last = self.scenes.len() - 1;
                    proof {
                        assert(self.scenes@[last as int] == s0[last as int]);
                    }
                    let top = &mut self.scenes[last];
                    top.deinit(queue);
                    proof {
                        assert(self.scenes@ =~= s0.take(s0.len() - k));
                        let idx = s0.len() - 1 - kpre;
                        if scene_clears(s0[idx]) {
                            assert(queue.render_objects@ =~= Seq::<
                                (RenderQueueData, ObjectBound),
                            >::empty());
                            assert(queue.render_objects_static@ =~= Seq::<
                                (RenderQueueData, ObjectBound),
                            >::empty());
                            assert(exists|i: int|
                                s0.len() - (kpre + 1) <= i < s0.len() && scene_clears(
                                    #[trigger] s0[i],
                                ));
                        } else {
                            if exists|i: int|
                                s0.len() - (kpre + 1) <= i < s0.len() && scene_clears(
                                    #[trigger] s0[i],
                                ) {
                                let w = choose|i: int|
                                    s0.len() - (kpre + 1) <= i < s0.len() && scene_clears(
                                        #[trigger] s0[i],
                                    );
                                if w == idx {
                                    assert(false);
                                } else {
                                    assert(s0.len() - kpre <= w < s0.len() && scene_clears(
                                        s0[w],
                                    ));
                                }
                            }
                        }
                    }
                    let _ = self.scenes.pop();
                    proof {
                        assert(self.scenes@ =~= s0.take(s0.len() - (k + 1)));
                    }
                    events.push(LifecycleEvent::Deinit);
                    k = k + 1;
                }
                let last = self.scenes.len() - 1;
                proof {
                    assert(self.scenes@[last as int] == s0[last as int]);
                    assert(scene_wf(s0[last as int]));
                }
                let ghost uncovered = s0[last as int];
                let top = &mut self.scenes[last];
                match top.init(&message, queue) {
                    Ok(()) => {},
                    Err(e) => {
                        proof {
                            assert(Some(e) == scene_rejects(uncovered, message));
                        }
                        return Err(e);
                    },
                }
                events.push(LifecycleEvent::Init);
                proof {
                    assert(forall|i: int|
                        0 <= i < events@.len() - 1 ==> (#[trigger] events@[i]) is Deinit);
                    assert(scene_inited_rel(uncovered, self.scenes@[last as int], message));
                    assert(scene_wf(self.scenes@[last as int]));
                    assert forall|i: int|
                        0 <= i < self.scenes@.len() implies scene_wf(
                        #[trigger] self.scenes@[i],
                    ) by {
                        if i < last {
                            assert(self.scenes@[i] == s0[i]);
                            assert(scene_wf(s0[i]));
                        }
                    }
                    assert(self.scenes@.last() == self.scenes@[last as int]);
                }
                Ok(events)
            },
            SceneOp::Replace(new_scene, message) => {
                let ghost pre_top = self.scenes@.last();
                let mut events: Vec<LifecycleEvent> = Vec::new();
                let last = self.scenes.len() - 1;
                let top = &mut self.scenes[last];
                top.deinit(queue);
                let _ = self.scenes.pop();
                events.push(LifecycleEvent::Deinit);
                proof {
                    if scene_clears(pre_top) {
                        assert(queue.render_objects@ =~= Seq::<
                            (RenderQueueData, ObjectBound),
                        >::empty());
                        assert(queue.render_objects_static@ =~= Seq::<
                            (RenderQueueData, ObjectBound),
                        >::empty());
                    }
                }
                let ghost inc0 = *new_scene;
                let mut incoming: Scene = *new_scene;
                match incoming.init(&message, queue) {
                    Ok(()) => {},
                    Err(e) => {
                        proof {
                            assert(Some(e) == scene_rejects(inc0, message));
                        }
                        self.scenes.push(incoming);
                        return Err(e);
                    },
                }
                proof {
                    assert(scene_inited_rel(inc0, incoming, message));
                }
                self.scenes.push(incoming);
                events.push(LifecycleEvent::Init);
                proof {
                    assert(events@.len() == 2);
                    assert(events@[0] is Deinit && events@[1] is Init);
                    assert(scene_wf(self.scenes@.last()));
                    assert forall|i: int|
                        0 <= i < self.scenes@.len() implies scene_wf(
                        #[trigger] self.scenes@[i],
                    ) by {
                        if i < self.scenes@.len() - 1 {
                            assert(self.scenes@[i] == old(self).scenes@[i]);
                            assert(scene_wf(old(self).scenes@[i]));
                        }
                    }
                }
                Ok(events)
            },
        }
    }
}

} // verus!
