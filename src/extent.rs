//! The bounding box of a document's absolute points.
use vstd::prelude::*;
use crate::geometry::{Command, Point, doc_has_absolute, doc_has_relative, doc_in_range};

verus! {

/// The running bounding box of the absolute points seen so far, and whether
/// any relative move or line was seen.
#[derive(Clone, Copy, Debug)]
pub struct Extent {
    pub x_min: i64,
    pub x_max: i64,
    pub y_min: i64,
    pub y_max: i64,
    /// Some absolute point was seen; before that the bounds mean nothing.
    pub seen_point: bool,
    /// No relative move or line was seen.
    pub all_absolute: bool,
}

/// The commands of each path, as sequences.
pub open spec fn doc_view(paths: Seq<Vec<Command>>) -> Seq<Seq<Command>> {
    paths.map_values(|p: Vec<Command>| p@)
}

impl Extent {
    /// Once a point was seen, the bounds are ordered and in range.
    pub open spec fn wf(self) -> bool {
        self.seen_point ==> {
            &&& (Point { x: self.x_min, y: self.y_min }).in_range()
            &&& (Point { x: self.x_max, y: self.y_max }).in_range()
            &&& self.x_min <= self.x_max
            &&& self.y_min <= self.y_max
        }
    }

    /// The state before any command was seen.
    pub open spec fn empty() -> Extent {
        Extent { x_min: 0, x_max: 0, y_min: 0, y_max: 0, seen_point: false, all_absolute: true }
    }

    /// The point lies within the box.
    pub open spec fn covers(self, p: Point) -> bool {
        &&& self.seen_point
        &&& self.x_min <= p.x <= self.x_max
        &&& self.y_min <= p.y <= self.y_max
    }

    /// The smallest box that holds this one and the point.
    pub open spec fn widened(self, p: Point) -> Extent {
        if self.seen_point {
            Extent {
                x_min: if p.x < self.x_min { p.x } else { self.x_min },
                x_max: if p.x > self.x_max { p.x } else { self.x_max },
                y_min: if p.y < self.y_min { p.y } else { self.y_min },
                y_max: if p.y > self.y_max { p.y } else { self.y_max },
                ..self
            }
        } else {
            Extent { x_min: p.x, x_max: p.x, y_min: p.y, y_max: p.y, seen_point: true, ..self }
        }
    }

    /// The state after one more command: an absolute point widens the box, a
    /// relative move or line clears `all_absolute`, anything else changes nothing.
    pub open spec fn observed(self, c: Command) -> Extent {
        if c.is_absolute() {
            self.widened(c.point())
        } else if c.is_relative() {
            Extent { all_absolute: false, ..self }
        } else {
            self
        }
    }

    pub fn new() -> (r: Extent)
        ensures
            r == Extent::empty(),
    {
        Extent { x_min: 0, x_max: 0, y_min: 0, y_max: 0, seen_point: false, all_absolute: true }
    }

    /// Takes one absolute point into the box.
    pub fn add_pt(&mut self, p: Point)
        requires
            old(self).wf(),
            p.in_range(),
        ensures
            *final(self) == old(self).widened(p),
            final(self).wf(),
    {
        if self.seen_point {
            if p.x < self.x_min {
                self.x_min = p.x;
            }
            if p.x > self.x_max {
                self.x_max = p.x;
            }
            if p.y < self.y_min {
                self.y_min = p.y;
            }
            if p.y > self.y_max {
                self.y_max = p.y;
            }
        } else {
            self.x_min = p.x;
            self.x_max = p.x;
            self.y_min = p.y;
            self.y_max = p.y;
            self.seen_point = true;
        }
    }

    /// Takes one command into account.
    pub fn observe(&mut self, c: &Command)
        requires
            old(self).wf(),
            c.is_absolute() ==> c.point().in_range(),
        ensures
            *final(self) == old(self).observed(*c),
            final(self).wf(),
    {
        match c {
            Command::Move(pos, p) | Command::Line(pos, p) => {
                if *pos == crate::geometry::Position::Absolute {
                    self.add_pt(*p);
                } else {
                    self.all_absolute = false;
                }
            },
            _ => {},
        }
    }

    /// Takes every command of one path into account, in order.
    pub fn observe_path(&mut self, cmds: &Vec<Command>)
        requires
            old(self).wf(),
            forall|j: int| 0 <= j < cmds@.len() && (#[trigger] cmds@[j]).is_absolute()
                ==> cmds@[j].point().in_range(),
        ensures
            *final(self) == observe_path(*old(self), cmds@),
            final(self).wf(),
    {
        let ghost start = *self;
        let mut j: usize = 0;
        while j < cmds.len()
            invariant
                0 <= j <= cmds@.len(),
                self.wf(),
                *self == observe_path(start, cmds@.take(j as int)),
                forall|k: int| 0 <= k < cmds@.len() && (#[trigger] cmds@[k]).is_absolute()
                    ==> cmds@[k].point().in_range(),
            decreases cmds@.len() - j,
        {
            self.observe(&cmds[j]);
            proof {
                assert(cmds@.take(j + 1).drop_last() == cmds@.take(j as int));
            }
            j += 1;
        }
        proof {
            assert(cmds@.take(j as int) == cmds@);
        }
    }
}

/// The state after the commands of one path, in order.
pub open spec fn observe_path(e: Extent, cmds: Seq<Command>) -> Extent
    decreases cmds.len(),
{
    if cmds.len() == 0 {
        e
    } else {
        observe_path(e, cmds.drop_last()).observed(cmds.last())
    }
}

/// The state after every path of a document, in order.
pub open spec fn observe_doc(e: Extent, paths: Seq<Seq<Command>>) -> Extent
    decreases paths.len(),
{
    if paths.len() == 0 {
        e
    } else {
        observe_path(observe_doc(e, paths.drop_last()), paths.last())
    }
}

/// Scans every path of a document and returns the extent of its absolute points.
pub fn get_size(paths: &Vec<Vec<Command>>) -> (r: Extent)
    requires
        doc_in_range(doc_view(paths@)),
    ensures
        r == observe_doc(Extent::empty(), doc_view(paths@)),
        r.wf(),
        r.all_absolute == !doc_has_relative(doc_view(paths@)),
        r.seen_point == doc_has_absolute(doc_view(paths@)),
        forall|i: int, j: int|
            0 <= i < paths@.len() && 0 <= j < paths@[i]@.len()
                && (#[trigger] paths@[i]@[j]).is_absolute() ==> r.covers(paths@[i]@[j].point()),
{
    let mut size = Extent::new();
    let mut i: usize = 0;
    while i < paths.len()
        invariant
            0 <= i <= paths@.len(),
            size.wf(),
            size == observe_doc(Extent::empty(), doc_view(paths@).take(i as int)),
            doc_in_range(doc_view(paths@)),
        decreases paths@.len() - i,
    {
        proof {
            let d = doc_view(paths@);
            assert forall|j: int| 0 <= j < paths@[i as int]@.len()
                && (#[trigger] paths@[i as int]@[j]).is_absolute()
                implies paths@[i as int]@[j].point().in_range() by {
                assert(d[i as int][j] == paths@[i as int]@[j]);
            }
        }
        size.observe_path(&paths[i]);
        proof {
            let d = doc_view(paths@);
            assert(d.take(i + 1).drop_last() == d.take(i as int));
            assert(d.take(i + 1).last() == paths@[i as int]@);
        }
        i += 1;
    }
    proof {
        let d = doc_view(paths@);
        assert(d.take(i as int) == d);
        lemma_doc_facts(Extent::empty(), d);
        assert forall|i: int, j: int|
            0 <= i < paths@.len() && 0 <= j < paths@[i]@.len()
                && (#[trigger] paths@[i]@[j]).is_absolute() implies size.covers(paths@[i]@[j].point()) by {
            assert(d[i][j] == paths@[i]@[j]);
        }
        if size.all_absolute {
            assert(!doc_has_relative(d));
        }
    }
    size
}

/// What one path does to a state: `all_absolute` survives only where the path
/// has no relative move or line, a point is seen where it has an absolute one,
/// and the box keeps what it covered and covers each absolute point.
pub proof fn lemma_path_facts(e: Extent, cmds: Seq<Command>)
    ensures
        observe_path(e, cmds).all_absolute
            == (e.all_absolute && !exists|j: int| 0 <= j < cmds.len() && (#[trigger] cmds[j]).is_relative()),
        observe_path(e, cmds).seen_point
            == (e.seen_point || exists|j: int| 0 <= j < cmds.len() && (#[trigger] cmds[j]).is_absolute()),
        forall|p: Point| e.covers(p) ==> observe_path(e, cmds).covers(p),
        forall|j: int| 0 <= j < cmds.len() && (#[trigger] cmds[j]).is_absolute()
            ==> observe_path(e, cmds).covers(cmds[j].point()),
    decreases cmds.len(),
{
    if cmds.len() > 0 {
        let init = cmds.drop_last();
        lemma_path_facts(e, init);
        let r = observe_path(e, cmds);
        assert forall|j: int| 0 <= j < cmds.len() && (#[trigger] cmds[j]).is_absolute()
            implies r.covers(cmds[j].point()) by {
            if j < cmds.len() - 1 {
                assert(init[j] == cmds[j]);
            }
        }
        if exists|j: int| 0 <= j < cmds.len() && (#[trigger] cmds[j]).is_relative() {
            let j = choose|j: int| 0 <= j < cmds.len() && (#[trigger] cmds[j]).is_relative();
            if j < cmds.len() - 1 {
                assert(init[j] == cmds[j]);
            }
        }
        if exists|j: int| 0 <= j < init.len() && (#[trigger] init[j]).is_relative() {
            let j = choose|j: int| 0 <= j < init.len() && (#[trigger] init[j]).is_relative();
            assert(cmds[j] == init[j]);
        }
        if exists|j: int| 0 <= j < cmds.len() && (#[trigger] cmds[j]).is_absolute() {
            let j = choose|j: int| 0 <= j < cmds.len() && (#[trigger] cmds[j]).is_absolute();
            if j < cmds.len() - 1 {
                assert(init[j] == cmds[j]);
            }
        }
        if exists|j: int| 0 <= j < init.len() && (#[trigger] init[j]).is_absolute() {
            let j = choose|j: int| 0 <= j < init.len() && (#[trigger] init[j]).is_absolute();
            assert(cmds[j] == init[j]);
        }
    }
}

/// The same facts over the paths of a document.
pub proof fn lemma_doc_facts(e: Extent, paths: Seq<Seq<Command>>)
    ensures
        observe_doc(e, paths).all_absolute == (e.all_absolute && !doc_has_relative(paths)),
        observe_doc(e, paths).seen_point == (e.seen_point || doc_has_absolute(paths)),
        forall|p: Point| e.covers(p) ==> observe_doc(e, paths).covers(p),
        forall|i: int, j: int|
            0 <= i < paths.len() && 0 <= j < paths[i].len() && (#[trigger] paths[i][j]).is_absolute()
                ==> observe_doc(e, paths).covers(paths[i][j].point()),
    decreases paths.len(),
{
    if paths.len() > 0 {
        let init = paths.drop_last();
        let last = paths.last();
        lemma_doc_facts(e, init);
        let mid = observe_doc(e, init);
        lemma_path_facts(mid, last);
        let r = observe_doc(e, paths);
        assert forall|i: int, j: int|
            0 <= i < paths.len() && 0 <= j < paths[i].len() && (#[trigger] paths[i][j]).is_absolute()
                implies r.covers(paths[i][j].point()) by {
            if i < paths.len() - 1 {
                assert(init[i][j] == paths[i][j]);
            } else {
                assert(last[j] == paths[i][j]);
            }
        }
        if doc_has_relative(paths) {
            let (i, j) = choose|i: int, j: int|
                0 <= i < paths.len() && 0 <= j < paths[i].len() && (#[trigger] paths[i][j]).is_relative();
            if i < paths.len() - 1 {
                assert(init[i][j] == paths[i][j]);
            } else {
                assert(last[j] == paths[i][j]);
            }
        }
        if doc_has_relative(init) {
            let (i, j) = choose|i: int, j: int|
                0 <= i < init.len() && 0 <= j < init[i].len() && (#[trigger] init[i][j]).is_relative();
            assert(paths[i][j] == init[i][j]);
        }
        if exists|j: int| 0 <= j < last.len() && (#[trigger] last[j]).is_relative() {
            let j = choose|j: int| 0 <= j < last.len() && (#[trigger] last[j]).is_relative();
            assert(paths[paths.len() - 1][j] == last[j]);
        }
        if doc_has_absolute(paths) {
            let (i, j) = choose|i: int, j: int|
                0 <= i < paths.len() && 0 <= j < paths[i].len() && (#[trigger] paths[i][j]).is_absolute();
            if i < paths.len() - 1 {
                assert(init[i][j] == paths[i][j]);
            } else {
                assert(last[j] == paths[i][j]);
            }
        }
        if doc_has_absolute(init) {
            let (i, j) = choose|i: int, j: int|
                0 <= i < init.len() && 0 <= j < init[i].len() && (#[trigger] init[i][j]).is_absolute();
            assert(paths[i][j] == init[i][j]);
        }
        if exists|j: int| 0 <= j < last.len() && (#[trigger] last[j]).is_absolute() {
            let j = choose|j: int| 0 <= j < last.len() && (#[trigger] last[j]).is_absolute();
            assert(paths[paths.len() - 1][j] == last[j]);
        }
    }
}

} // verus!
