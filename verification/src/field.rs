//! What the server keeps: the last controller state, the telemetry history and a
//! map of the field on which every reported position is marked.
use vstd::prelude::*;
use vstd::string::StringSliceAdditionalSpecFns;
use crate::data::DeskoveryData;

verus! {

/// The field is a square of this many cells a side; the robot starts at its centre.
pub const FIELD_SIZE: usize = 1000;

/// The value of a marked cell.
pub const FIELD_COLOR: u8 = 255;

/// Once the history holds this many samples, the next poll starts it afresh.
pub const HISTORY_LIMIT: usize = 1000;

/// The state of the remote controller: two axes and four buttons.
#[derive(Debug, Clone, Copy, PartialEq, Eq, Structural)]
pub struct ControllerData {
    pub x: i16,
    pub y: i16,
    pub b1: bool,
    pub b2: bool,
    pub b3: bool,
    pub b4: bool,
}

/// The cell coordinate of a position coordinate: shifted by half the field and
/// clamped to it.
pub open spec fn field_cell(v: int) -> int {
    let c = v + FIELD_SIZE / 2;
    if c < 0 {
        0
    } else if c > FIELD_SIZE - 1 {
        FIELD_SIZE - 1
    } else {
        c
    }
}

/// The map cell that a sample marks.
pub open spec fn cell_index(d: DeskoveryData) -> int {
    field_cell(d.x as int) * FIELD_SIZE + field_cell(d.y as int)
}

/// A sample whose position can be shifted in 32 bits.
pub open spec fn sample_fits(d: DeskoveryData) -> bool {
    &&& d.x + FIELD_SIZE / 2 <= i32::MAX
    &&& d.y + FIELD_SIZE / 2 <= i32::MAX
}

/// The map after the cells of `data` have been marked.
pub open spec fn marked(map: Seq<u8>, data: Seq<DeskoveryData>) -> Seq<u8> {
    Seq::new(
        map.len(),
        |i: int|
            if exists|k: int| 0 <= k < data.len() && cell_index(#[trigger] data[k]) == i {
                FIELD_COLOR
            } else {
                map[i]
            },
    )
}

/// The history after a poll that brings `data`.
pub open spec fn polled_history(history: Seq<DeskoveryData>, data: Seq<DeskoveryData>) -> Seq<DeskoveryData> {
    if history.len() >= HISTORY_LIMIT {
        data
    } else {
        history + data
    }
}

/// `s` is the text "true".
pub open spec fn is_true(s: &str) -> bool {
    s.spec_bytes() == "true".spec_bytes()
}

/// What the server keeps.
pub struct FieldState {
    controller: ControllerData,
    deskovery: Vec<DeskoveryData>,
    field_map: Vec<u8>,
}

impl FieldState {
    pub closed spec fn controller(&self) -> ControllerData {
        self.controller
    }

    /// The telemetry received, oldest first.
    pub closed spec fn history(&self) -> Seq<DeskoveryData> {
        self.deskovery@
    }

    /// The field map, row by row (`x` selects the row).
    pub closed spec fn map(&self) -> Seq<u8> {
        self.field_map@
    }

    pub open spec fn wf(&self) -> bool {
        self.map().len() == FIELD_SIZE * FIELD_SIZE
    }

    /// The controller at rest, no history and a blank map.
    pub fn new() -> (s: FieldState)
        ensures
            s.wf(),
            s.controller() == (ControllerData { x: 0, y: 0, b1: false, b2: false, b3: false, b4: false }),
            s.history() == Seq::<DeskoveryData>::empty(),
            s.map() == Seq::new((FIELD_SIZE * FIELD_SIZE) as nat, |i: int| 0u8),
    {
        FieldState {
            controller: ControllerData { x: 0, y: 0, b1: false, b2: false, b3: false, b4: false },
            deskovery: Vec::new(),
            field_map: blank_map(),
        }
    }

    /// Takes a batch of telemetry: the history (started afresh once it has reached
    /// its limit) gets the batch, the map gets every reported position marked, and
    /// the controller state goes back to the robot.
    pub fn poll(&mut self, data: Vec<DeskoveryData>) -> (c: ControllerData)
        requires
            old(self).wf(),
            forall|k: int| 0 <= k < data@.len() ==> sample_fits(#[trigger] data@[k]),
        ensures
            final(self).wf(),
            c == old(self).controller(),
            final(self).controller() == old(self).controller(),
            final(self).history() == polled_history(old(self).history(), data@),
            final(self).map() == marked(old(self).map(), data@),
    {
        if self.deskovery.len() >= HISTORY_LIMIT {
            self.deskovery.clear();
        }
        let ghost start = self.deskovery@;
        let mut i: usize = 0;
        while i < data.len()
            invariant
                i <= data@.len(),
                self.deskovery@ == start + data@.take(i as int),
                self.controller == old(self).controller,
                self.field_map@ == old(self).field_map@,
            decreases data@.len() - i,
        {
            self.deskovery.push(data[i]);
            i += 1;
            assert(self.deskovery@ =~= start + data@.take(i as int));
        }
        assert(data@.take(data@.len() as int) =~= data@);
        assert(self.deskovery@ =~= polled_history(old(self).deskovery@, data@));
        let ghost map0 = self.field_map@;
        assert(marked(map0, data@.take(0)) =~= map0);
        let mut k: usize = 0;
        while k < data.len()
            invariant
                k <= data@.len(),
                map0.len() == FIELD_SIZE * FIELD_SIZE,
                forall|j: int| 0 <= j < data@.len() ==> sample_fits(#[trigger] data@[j]),
                self.field_map@ == marked(map0, data@.take(k as int)),
                self.controller == old(self).controller,
                self.deskovery@ == polled_history(old(self).deskovery@, data@),
            decreases data@.len() - k,
        {
            let d = data[k];
            let field_x = clamp_cell(d.x);
            let field_y = clamp_cell(d.y);
            let last = self.field_map.len() - 1;
            let cell = field_x * FIELD_SIZE + field_y;
            let index = if cell < last {
                cell
            } else {
                last
            };
            assert(index == cell_index(d));
            let ghost before = self.field_map@;
            self.field_map.set(index, FIELD_COLOR);
            k += 1;
            assert forall|i: int| 0 <= i < map0.len() implies #[trigger] self.field_map@[i] == marked(
                map0,
                data@.take(k as int),
            )[i] by {
                let taken = data@.take(k as int);
                let prev = data@.take(k - 1);
                assert(taken[k - 1] == d);
                if i == index {
                    assert(cell_index(taken[k - 1]) == i);
                } else {
                    if exists|m: int| 0 <= m < taken.len() && cell_index(#[trigger] taken[m]) == i {
                        let m = choose|m: int| 0 <= m < taken.len() && cell_index(#[trigger] taken[m]) == i;
                        assert(m < k - 1);
                        assert(prev[m] == taken[m]);
                    }
                    if exists|m: int| 0 <= m < prev.len() && cell_index(#[trigger] prev[m]) == i {
                        let m = choose|m: int| 0 <= m < prev.len() && cell_index(#[trigger] prev[m]) == i;
                        assert(prev[m] == taken[m]);
                    }
                }
            }
            assert(self.field_map@ =~= marked(map0, data@.take(k as int)));
        }
        assert(data@.take(data@.len() as int) =~= data@);
        self.controller
    }

    /// Sets the controller state: the two axes, and each button that reads "true".
    pub fn push(&mut self, x: i16, y: i16, b1: &str, b2: &str, b3: &str, b4: &str)
        ensures
            final(self).wf() == old(self).wf(),
            final(self).history() == old(self).history(),
            final(self).map() == old(self).map(),
            final(self).controller() == (ControllerData {
                x,
                y,
                b1: is_true(b1),
                b2: is_true(b2),
                b3: is_true(b3),
                b4: is_true(b4),
            }),
    {
        self.controller = ControllerData {
            x,
            y,
            b1: text_is_true(b1),
            b2: text_is_true(b2),
            b3: text_is_true(b3),
            b4: text_is_true(b4),
        };
    }

    /// The telemetry received, oldest first.
    pub fn map_data(&self) -> (r: &Vec<DeskoveryData>)
        ensures
            r@ == self.history(),
    {
        &self.deskovery
    }

    /// Forgets the history and blanks the map.
    pub fn delete_map_data(&mut self)
        ensures
            final(self).wf(),
            final(self).controller() == old(self).controller(),
            final(self).history() == Seq::<DeskoveryData>::empty(),
            final(self).map() == Seq::new((FIELD_SIZE * FIELD_SIZE) as nat, |i: int| 0u8),
    {
        self.deskovery.clear();
        self.field_map = blank_map();
    }

    /// The pixel of the map image at `(x, y)`: red and green carry the low bytes
    /// of the coordinates, blue the map cell `x * FIELD_SIZE + y`.
    pub fn map_pixel(&self, x: u32, y: u32) -> (p: (u8, u8, u8))
        requires
            self.wf(),
            x < FIELD_SIZE,
            y < FIELD_SIZE,
        ensures
            p == (x as u8, y as u8, self.map()[x * FIELD_SIZE + y]),
    {
        let index = (x * (FIELD_SIZE as u32) + y) as usize;
        (x as u8, y as u8, self.field_map[index])
    }
}

/// Whether the position of `d` can be shifted in 32 bits.
pub fn fits_field(d: &DeskoveryData) -> (r: bool)
    ensures
        r == sample_fits(*d),
{
    d.x <= i32::MAX - (FIELD_SIZE / 2) as i32 && d.y <= i32::MAX - (FIELD_SIZE / 2) as i32
}

/// A blank map.
fn blank_map() -> (m: Vec<u8>)
    ensures
        m@ == Seq::new((FIELD_SIZE * FIELD_SIZE) as nat, |i: int| 0u8),
{
    let mut m: Vec<u8> = Vec::new();
    let mut i: usize = 0;
    while i < FIELD_SIZE * FIELD_SIZE
        invariant
            i <= FIELD_SIZE * FIELD_SIZE,
            m@.len() == i,
            forall|k: int| 0 <= k < i ==> m@[k] == 0u8,
        decreases FIELD_SIZE * FIELD_SIZE - i,
    {
        m.push(0u8);
        i += 1;
    }
    assert(m@ =~= Seq::new((FIELD_SIZE * FIELD_SIZE) as nat, |i: int| 0u8));
    m
}

/// The cell coordinate of a position coordinate.
fn clamp_cell(v: i32) -> (c: usize)
    requires
        v + FIELD_SIZE / 2 <= i32::MAX,
    ensures
        c == field_cell(v as int),
        c < FIELD_SIZE,
{
    let shifted = v + (FIELD_SIZE / 2) as i32;
    let upper = (FIELD_SIZE - 1) as i32;
    let low = if shifted > 0 {
        shifted
    } else {
        0
    };
    let c = if low < upper {
        low
    } else {
        upper
    };
    c as usize
}

/// Whether `s` is the text "true".
fn text_is_true(s: &str) -> (r: bool)
    ensures
        r == is_true(s),
{
    let a = s.as_bytes();
    let b = "true".as_bytes();
    if a.len() != b.len() {
        return false;
    }
    let mut i: usize = 0;
    while i < a.len()
        invariant
            a@ == s.spec_bytes(),
            b@ == "true".spec_bytes(),
            a@.len() == b@.len(),
            i <= a@.len(),
            forall|k: int| 0 <= k < i ==> a@[k] == b@[k],
        decreases a@.len() - i,
    {
        if a[i] != b[i] {
            assert(a@[i as int] != b@[i as int]);
            return false;
        }
        i += 1;
    }
    assert(a@ =~= b@);
    true
}

/// Every sample marks a cell inside the map.
pub proof fn lemma_cell_in_field(d: DeskoveryData)
    ensures
        0 <= cell_index(d) < FIELD_SIZE * FIELD_SIZE,
{
}

/// Law: after a poll, the cell of every sample of the batch is marked.
pub proof fn law_poll_marks_every_sample(map: Seq<u8>, data: Seq<DeskoveryData>, k: int)
    requires
        map.len() == FIELD_SIZE * FIELD_SIZE,
        0 <= k < data.len(),
    ensures
        marked(map, data)[cell_index(data[k])] == FIELD_COLOR,
{
    lemma_cell_in_field(data[k]);
}

/// Law: a poll changes no cell but those of its samples, and a marked cell stays marked.
pub proof fn law_poll_keeps_other_cells(map: Seq<u8>, data: Seq<DeskoveryData>, i: int)
    requires
        0 <= i < map.len(),
    ensures
        marked(map, data).len() == map.len(),
        (forall|k: int| 0 <= k < data.len() ==> cell_index(#[trigger] data[k]) != i)
            ==> marked(map, data)[i] == map[i],
        map[i] == FIELD_COLOR ==> marked(map, data)[i] == FIELD_COLOR,
{
}

/// Law: polls on a fresh history keep every sample in arrival order until the
/// history reaches its limit.
pub proof fn law_history_keeps_arrival_order(
    history: Seq<DeskoveryData>,
    first: Seq<DeskoveryData>,
    second: Seq<DeskoveryData>,
)
    requires
        history.len() + first.len() < HISTORY_LIMIT,
    ensures
        polled_history(polled_history(history, first), second) == history + first + second,
{
    assert(history + first + second =~= (history + first) + second);
}

/// Law: a poll on a history that has reached its limit starts it afresh with the
/// batch; a poll on a shorter history appends the batch; so a history never holds
/// as many as the limit plus one batch.
pub proof fn law_history_restarts_at_limit(history: Seq<DeskoveryData>, data: Seq<DeskoveryData>)
    ensures
        history.len() >= HISTORY_LIMIT ==> polled_history(history, data) == data,
        history.len() < HISTORY_LIMIT ==> polled_history(history, data) == history + data,
        polled_history(history, data).len() < HISTORY_LIMIT + data.len(),
{
}

} // verus!
