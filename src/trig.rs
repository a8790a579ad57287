use vstd::prelude::*;

use crate::UNIT;

verus! {

/// Angle units in one full turn.
pub const TURN: u32 = 16384;

/// Angle units in a quarter turn.
pub const QUARTER: u32 = 4096;

/// Angle units in a half turn.
pub const HALF: u32 = 8192;

/// Sines of every angle of a full turn, in fixed point with `UNIT` standing for 1.
pub struct TrigTable {
    sines: Vec<i64>,
}

impl View for TrigTable {
    type V = Seq<i64>;

    closed spec fn view(&self) -> Seq<i64> {
        self.sines@
    }
}

/// Sines over the first quarter turn, `q[a]` for each angle `0 ..= QUARTER`: they start at 0,
/// end at `UNIT`, and stay within `[1, UNIT]` after the first.
pub open spec fn quarter_valid(q: Seq<i64>) -> bool {
    &&& q.len() == QUARTER + 1
    &&& q[0] == 0
    &&& q[QUARTER as int] == UNIT
    &&& forall|i: int| 0 < i < q.len() ==> 1 <= #[trigger] q[i] <= UNIT
}

/// The sine of angle `a` of a full turn, from the sines of the first quarter by symmetry.
pub open spec fn quarter_wave(q: Seq<i64>, a: int) -> int {
    if a <= QUARTER {
        q[a] as int
    } else if a <= HALF {
        q[HALF - a] as int
    } else if a <= 3 * QUARTER {
        -q[a - HALF]
    } else {
        -q[TURN - a]
    }
}

impl TrigTable {
    /// One entry per angle unit, each within `[-UNIT, UNIT]`, exact at the four axis angles,
    /// positive over the first half turn and negative over the second, and symmetric as the
    /// sine is: `sin(HALF - a) == sin(a)` and `sin(TURN - a) == -sin(a)`.
    pub open spec fn wf(&self) -> bool {
        &&& self@.len() == TURN
        &&& forall|i: int| 0 <= i < TURN ==> -UNIT <= #[trigger] self@[i] <= UNIT
        &&& self@[0] == 0
        &&& self@[QUARTER as int] == UNIT
        &&& self@[HALF as int] == 0
        &&& self@[3 * QUARTER] == -UNIT
        &&& forall|i: int| 0 < i < HALF ==> #[trigger] self@[i] > 0
        &&& forall|i: int| HALF < i < TURN ==> #[trigger] self@[i] < 0
        &&& forall|i: int| 0 <= i <= HALF ==> #[trigger] self@[HALF - i] == self@[i]
        &&& forall|i: int| 0 < i < TURN ==> #[trigger] self@[TURN - i] == -self@[i]
    }

    pub open spec fn sin_spec(&self, a: int) -> i64 {
        self@[a % (TURN as int)]
    }

    pub open spec fn cos_spec(&self, a: int) -> i64 {
        self@[(a + QUARTER) % (TURN as int)]
    }

    /// The full table built from the sines of the first quarter turn; `None` unless
    /// `quarter_valid` holds of them.
    pub fn from_quarter(q: &Vec<i64>) -> (r: Option<TrigTable>)
        ensures
            r.is_some() == quarter_valid(q@),
            r matches Some(t) ==> {
                &&& t.wf()
                &&& forall|a: int| 0 <= a < TURN ==> #[trigger] t@[a] == quarter_wave(q@, a)
            },
    {
        if q.len() != QUARTER as usize + 1 || q[0] != 0 || q[QUARTER as usize] != UNIT {
            return None;
        }
        let mut i: usize = 1;
        while i < q.len()
            invariant
                1 <= i <= q@.len(),
                forall|j: int| 0 < j < i ==> 1 <= #[trigger] q@[j] <= UNIT,
            decreases q@.len() - i,
        {
            if q[i] < 1 || q[i] > UNIT {
                return None;
            }
            i += 1;
        }
        let mut sines: Vec<i64> = Vec::new();
        let mut a: u32 = 0;
        while a < TURN
            invariant
                quarter_valid(q@),
                a <= TURN,
                sines@.len() == a,
                forall|j: int| 0 <= j < a ==> #[trigger] sines@[j] == quarter_wave(q@, j),
            decreases TURN - a,
        {
            let s = if a <= QUARTER {
                q[a as usize]
            } else if a <= HALF {
                q[(HALF - a) as usize]
            } else if a <= 3 * QUARTER {
                -q[(a - HALF) as usize]
            } else {
                -q[(TURN - a) as usize]
            };
            sines.push(s);
            a += 1;
        }
        let t = TrigTable { sines };
        assert forall|i: int| 0 <= i < TURN implies -UNIT <= #[trigger] t@[i] <= UNIT by {
            assert(t@[i] == quarter_wave(q@, i));
        }
        assert forall|i: int| 0 < i < HALF implies #[trigger] t@[i] > 0 by {
            assert(t@[i] == quarter_wave(q@, i));
        }
        assert forall|i: int| HALF < i < TURN implies #[trigger] t@[i] < 0 by {
            assert(t@[i] == quarter_wave(q@, i));
        }
        assert forall|i: int| 0 <= i <= HALF implies #[trigger] t@[HALF - i] == t@[i] by {
            assert(t@[i] == quarter_wave(q@, i));
            assert(t@[HALF - i] == quarter_wave(q@, HALF - i));
        }
        assert forall|i: int| 0 < i < TURN implies #[trigger] t@[TURN - i] == -t@[i] by {
            assert(t@[i] == quarter_wave(q@, i));
            assert(t@[TURN - i] == quarter_wave(q@, TURN - i));
        }
        assert(t@[0] == quarter_wave(q@, 0));
        assert(t@[QUARTER as int] == quarter_wave(q@, QUARTER as int));
        assert(t@[HALF as int] == quarter_wave(q@, HALF as int));
        assert(t@[3 * QUARTER] == quarter_wave(q@, 3 * QUARTER));
        Some(t)
    }

    /// Sine of angle `a`, in fixed point.
    pub fn sin(&self, a: u32) -> (r: i64)
        requires
            self.wf(),
            a < TURN,
        ensures
            r == self.sin_spec(a as int),
            -UNIT <= r <= UNIT,
    {
        self.sines[a as usize]
    }

    /// Cosine of angle `a`, in fixed point: the sine a quarter turn further on.
    pub fn cos(&self, a: u32) -> (r: i64)
        requires
            self.wf(),
            a < TURN,
        ensures
            r == self.cos_spec(a as int),
            -UNIT <= r <= UNIT,
    {
        self.sines[((a + QUARTER) % TURN) as usize]
    }
}

} // verus!
