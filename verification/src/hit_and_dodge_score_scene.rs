//! The training-report scene: shows the round's result read from the
//! transition message, and closes back past the round on any confirm key.

use vstd::prelude::*;

use crate::error::FatalError;
use crate::message::{Message, MessageValue};
use crate::scene::{FrameInput, MaybeMessage, SceneOp};

verus! {

/// The values the report shows, as plain numbers: counts, score, the
/// accuracy in whole percent, the average reaction time in milliseconds,
/// and the record's timestamp in seconds since the epoch.
pub struct HitAndDodgeGameScoreDisplay {
    pub accuracy: u32,
    pub hit: u16,
    pub miss: u16,
    pub score: i32,
    pub avg_hit_time: i64,
    pub created_at: i64,
}

/// Does the message carry every key the report reads, under the expected
/// tag?
pub open spec fn report_message_complete(m: Message) -> bool {
    &&& m.spec_get("hit"@) is Some
    &&& m.spec_get("miss"@) is Some
    &&& m.spec_get("score"@) is Some
    &&& m.spec_get("accuracy"@) is Some
    &&& m.spec_get("created_at"@) is Some
    &&& m.spec_get("avg_hit_time"@) is Some
}

/// Are all the tags right, where present?
pub open spec fn report_message_typed(m: Message) -> bool {
    &&& m.spec_get("hit"@) is Some ==> m.spec_get("hit"@).unwrap() is I64
    &&& m.spec_get("miss"@) is Some ==> m.spec_get("miss"@).unwrap() is I64
    &&& m.spec_get("score"@) is Some ==> m.spec_get("score"@).unwrap() is I64
    &&& m.spec_get("accuracy"@) is Some ==> m.spec_get("accuracy"@).unwrap() is F64
    &&& m.spec_get("created_at"@) is Some ==> m.spec_get("created_at"@).unwrap() is Timestamp
    &&& m.spec_get("avg_hit_time"@) is Some ==> m.spec_get("avg_hit_time"@).unwrap() is I64
}

impl HitAndDodgeGameScoreDisplay {
    pub fn new() -> (r: HitAndDodgeGameScoreDisplay)
        ensures
            r.accuracy == 0,
            r.hit == 0,
            r.miss == 0,
            r.score == 0,
            r.avg_hit_time == 0,
            r.created_at == 0,
    {
        HitAndDodgeGameScoreDisplay {
            accuracy: 0,
            hit: 0,
            miss: 0,
            score: 0,
            avg_hit_time: 0,
            created_at: 0,
        }
    }

    /// Read the report back from a transition message. No message leaves
    /// the report untouched; a message that lacks a key or carries a
    /// wrong tag is fatal, exactly as the producer-consumer contract
    /// demands. The accuracy is recomputed from the counts.
    pub fn read_message(&mut self, message: &MaybeMessage) -> (r: Result<(), FatalError>)
        requires
            message is Some ==> message.unwrap().wf(),
        ensures
            match message {
                None => r is Ok && *final(self) == *old(self),
                Some(m) => {
                    &&& (r is Ok <==> report_message_complete(*m) && report_message_typed(*m))
                    &&& (r == Err::<(), FatalError>(FatalError::MessageKeyMissing)
                        ==> !report_message_complete(*m))
                    &&& (r == Err::<(), FatalError>(FatalError::MessageTypeMismatch)
                        ==> !report_message_typed(*m))
                    &&& (r is Ok ==> {
                        let hit = m.spec_get("hit"@).unwrap()->I64_0 as u16;
                        let miss = m.spec_get("miss"@).unwrap()->I64_0 as u16;
                        &&& final(self).hit == hit
                        &&& final(self).miss == miss
                        &&& final(self).score == m.spec_get("score"@).unwrap()->I64_0 as i32
                        &&& final(self).created_at == m.spec_get(
                            "created_at"@,
                        ).unwrap()->Timestamp_0
                        &&& final(self).avg_hit_time == m.spec_get(
                            "avg_hit_time"@,
                        ).unwrap()->I64_0
                        &&& final(self).accuracy == hit as int * 100 / (if hit + miss == 0 {
                            1int
                        } else {
                            hit as int + miss as int
                        })
                    })
                    &&& (r is Err ==> *final(self) == *old(self))
                },
            },
    {
        let msg = match message {
            Some(m) => m,
            None => {
                return Ok(());
            },
        };
        let hit: u16 = match msg.get("hit") {
            Some(MessageValue::I64(x)) => #[verifier::truncate] (*x as u16),
            Some(_) => {
                return Err(FatalError::MessageTypeMismatch);
            },
            None => {
                return Err(FatalError::MessageKeyMissing);
            },
        };
        let miss: u16 = match msg.get("miss") {
            Some(MessageValue::I64(x)) => #[verifier::truncate] (*x as u16),
            Some(_) => {
                return Err(FatalError::MessageTypeMismatch);
            },
            None => {
                return Err(FatalError::MessageKeyMissing);
            },
        };
        let score: i32 = match msg.get("score") {
            Some(MessageValue::I64(x)) => #[verifier::truncate] (*x as i32),
            Some(_) => {
                return Err(FatalError::MessageTypeMismatch);
            },
            None => {
                return Err(FatalError::MessageKeyMissing);
            },
        };
        match msg.get("accuracy") {
            Some(MessageValue::F64(_)) => {},
            Some(_) => {
                return Err(FatalError::MessageTypeMismatch);
            },
            None => {
                return Err(FatalError::MessageKeyMissing);
            },
        };
        let created_at: i64 = match msg.get("created_at") {
            Some(MessageValue::Timestamp(x)) => *x,
            Some(_) => {
                return Err(FatalError::MessageTypeMismatch);
            },
            None => {
                return Err(FatalError::MessageKeyMissing);
            },
        };
        let avg_hit_time: i64 = match msg.get("avg_hit_time") {
            Some(MessageValue::I64(x)) => *x,
            Some(_) => {
                return Err(FatalError::MessageTypeMismatch);
            },
            None => {
                return Err(FatalError::MessageKeyMissing);
            },
        };
        self.hit = hit;
        self.miss = miss;
        self.score = score;
        self.created_at = created_at;
        self.avg_hit_time = avg_hit_time;
        let total: u32 = hit as u32 + miss as u32;
        let divisor: u32 = if total == 0 {
            1
        } else {
            total
        };
        self.accuracy = (hit as u32 * 100) / divisor;
        Ok(())
    }
}

/// The score scene itself: the report plus the close decision.
pub struct HitAndDodgeScoreScene {
    pub score: HitAndDodgeGameScoreDisplay,
}

impl HitAndDodgeScoreScene {
    pub fn new() -> (r: HitAndDodgeScoreScene)
        ensures
            r == (HitAndDodgeScoreScene {
                score: (HitAndDodgeGameScoreDisplay {
                    accuracy: 0u32,
                    hit: 0u16,
                    miss: 0u16,
                    score: 0i32,
                    avg_hit_time: 0i64,
                    created_at: 0i64,
                }),
            }),
    {
        HitAndDodgeScoreScene { score: HitAndDodgeGameScoreDisplay::new() }
    }

    /// The report closes on escape, confirm, or the next button: it pops
    /// itself and the finished round below it.
    pub fn update(&mut self, input: &FrameInput, next_clicked: bool) -> (op: SceneOp)
        ensures
            *final(self) == *old(self),
            match op {
                SceneOp::Pop(n, msg) => {
                    &&& (input.escape_pressed || input.confirm_pressed || next_clicked)
                    &&& n == 2
                    &&& msg is None
                },
                SceneOp::NoOp => !(input.escape_pressed || input.confirm_pressed || next_clicked),
                _ => false,
            },
    {
        if input.escape_pressed || input.confirm_pressed || next_clicked {
            SceneOp::Pop(2, None)
        } else {
            SceneOp::NoOp
        }
    }
}

} // verus!
