//! Properties that hold of every document and every mapper.
use vstd::prelude::*;
use vstd::arithmetic::div_mod::lemma_fundamental_div_mod_converse;
use crate::extent::{Extent, lemma_doc_facts, observe_doc, observe_path};
use crate::geometry::{Command, doc_has_absolute, doc_has_relative, doc_in_range};
use crate::mapper::{
    CoordinateMapper, Frame, lemma_scale_bounds, lemma_scale_identity, round_units, target_length,
};
use crate::rewrite::rewritten;

verus! {

/// A document whose absolute points yield a usable mapper: some absolute
/// point, no relative move or line, and a box of positive width and height.
pub open spec fn mappable(paths: Seq<Seq<Command>>) -> bool {
    let e = observe_doc(Extent::empty(), paths);
    &&& !doc_has_relative(paths)
    &&& doc_has_absolute(paths)
    &&& e.x_min != e.x_max
    &&& e.y_min != e.y_max
}

/// Where the document's box starts at the origin and the requested size is
/// the box's own size, every absolute point maps onto itself.
pub proof fn law_identity_scale(paths: Seq<Seq<Command>>, width: Option<u8>, length: Option<u8>)
    requires
        doc_in_range(paths),
        mappable(paths),
        observe_doc(Extent::empty(), paths).x_min == 0,
        observe_doc(Extent::empty(), paths).y_min == 0,
        ({
            let e = observe_doc(Extent::empty(), paths);
            &&& target_length(e.x_max - e.x_min, width) == e.x_max - e.x_min
            &&& target_length(e.y_max - e.y_min, length) == e.y_max - e.y_min
        }),
    ensures
        forall|i: int, j: int|
            0 <= i < paths.len() && 0 <= j < paths[i].len() && (#[trigger] paths[i][j]).is_absolute()
                ==> observe_doc(Extent::empty(), paths).mapper_spec(width, length).map_spec(paths[i][j].point())
                == paths[i][j].point(),
{
    let e = observe_doc(Extent::empty(), paths);
    let m = e.mapper_spec(width, length);
    lemma_wf_doc(paths);
    lemma_doc_facts(Extent::empty(), paths);
    assert forall|i: int, j: int|
        0 <= i < paths.len() && 0 <= j < paths[i].len() && (#[trigger] paths[i][j]).is_absolute()
            implies m.map_spec(paths[i][j].point()) == paths[i][j].point() by {
        let p = paths[i][j].point();
        lemma_scale_identity(p.x as int, 0, m.x_length as int);
        lemma_scale_identity(p.y as int, 0, m.y_length as int);
    }
}

/// Every coordinate of every rewritten path of a document made of absolute
/// moves, absolute lines and closes lies within the target box.
pub proof fn law_boundedness(paths: Seq<Seq<Command>>, width: Option<u8>, length: Option<u8>)
    requires
        doc_in_range(paths),
        forall|i: int, j: int| 0 <= i < paths.len() && 0 <= j < paths[i].len()
            ==> (#[trigger] paths[i][j]).is_absolute() || paths[i][j] is Close,
        mappable(paths),
    ensures
        ({
            let m = observe_doc(Extent::empty(), paths).mapper_spec(width, length);
            forall|i: int, j: int|
                0 <= i < paths.len() && 0 <= j < rewritten(m, paths[i]).len()
                    && (#[trigger] rewritten(m, paths[i])[j]).has_point() ==> {
                    let q = rewritten(m, paths[i])[j].point();
                    &&& 0 <= q.x <= m.target_x_length
                    &&& 0 <= q.y <= m.target_y_length
                }
        }),
{
    let e = observe_doc(Extent::empty(), paths);
    let m = e.mapper_spec(width, length);
    lemma_wf_doc(paths);
    lemma_doc_facts(Extent::empty(), paths);
    assert forall|i: int, j: int|
        0 <= i < paths.len() && 0 <= j < rewritten(m, paths[i]).len()
            && (#[trigger] rewritten(m, paths[i])[j]).has_point() implies {
            let q = rewritten(m, paths[i])[j].point();
            &&& 0 <= q.x <= m.target_x_length
            &&& 0 <= q.y <= m.target_y_length
        } by {
        let c = paths[i][j];
        assert(j < paths[i].len());
        assert(c.is_absolute());
        let p = c.point();
        assert(e.covers(p));
        lemma_scale_bounds(p.x as int, m.x_min as int, m.x_length as int, m.target_x_length as int);
        lemma_scale_bounds(p.y as int, m.y_min as int, m.y_length as int, m.target_y_length as int);
    }
}

/// A rewritten path holds no relative move or line.
pub proof fn law_absoluteness(m: CoordinateMapper, cmds: Seq<Command>)
    ensures
        forall|j: int| 0 <= j < rewritten(m, cmds).len() ==> !(#[trigger] rewritten(m, cmds)[j]).is_relative(),
{
}

/// A rewritten path ends with a close; where the source path did not end with
/// one, that close is the only one at its end.
pub proof fn law_closure(m: CoordinateMapper, cmds: Seq<Command>)
    ensures
        rewritten(m, cmds).last() == Command::Close,
        cmds.len() > 0 && !(cmds.last() is Close) ==> !(rewritten(m, cmds)[cmds.len() - 1] is Close),
{
}

/// Where all absolute points of a document share one x, the box has zero
/// width; where they share one y, zero height. `normalize` then fails with
/// `DegenerateGeometry` (or `InvalidGeometry` where a relative command occurs).
pub proof fn law_degenerate_rejection(paths: Seq<Seq<Command>>, x: i64, y: i64)
    requires
        doc_has_absolute(paths),
    ensures
        (forall|i: int, j: int| 0 <= i < paths.len() && 0 <= j < paths[i].len()
            && (#[trigger] paths[i][j]).is_absolute() ==> paths[i][j].point().x == x)
            ==> observe_doc(Extent::empty(), paths).x_min == observe_doc(Extent::empty(), paths).x_max,
        (forall|i: int, j: int| 0 <= i < paths.len() && 0 <= j < paths[i].len()
            && (#[trigger] paths[i][j]).is_absolute() ==> paths[i][j].point().y == y)
            ==> observe_doc(Extent::empty(), paths).y_min == observe_doc(Extent::empty(), paths).y_max,
{
    lemma_doc_facts(Extent::empty(), paths);
    lemma_doc_tight(Extent::empty(), paths, x, y);
}

/// The frame of a mapper built without a requested size is the box rounded to
/// whole user units; with both requested, it is the requested size itself.
pub proof fn law_frame_derivation(e: Extent, width: u8, length: u8)
    requires
        e.wf(),
        e.seen_point,
    ensures
        e.mapper_spec(None, None).frame_spec() == (Frame {
            x: 0,
            y: 0,
            width: round_units(e.x_max - e.x_min) as i64,
            height: round_units(e.y_max - e.y_min) as i64,
        }),
        e.mapper_spec(Some(width), Some(length)).frame_spec() == (Frame {
            x: 0,
            y: 0,
            width: width as i64,
            height: length as i64,
        }),
{
    lemma_fundamental_div_mod_converse(width * 1000 + 500, 1000, width as int, 500);
    lemma_fundamental_div_mod_converse(length * 1000 + 500, 1000, length as int, 500);
}

/// Every state that the scan of an in-range document passes through is well formed.
proof fn lemma_wf_doc(paths: Seq<Seq<Command>>)
    requires
        doc_in_range(paths),
    ensures
        observe_doc(Extent::empty(), paths).wf(),
    decreases paths.len(),
{
    if paths.len() > 0 {
        let init = paths.drop_last();
        assert forall|i: int, j: int|
            0 <= i < init.len() && 0 <= j < init[i].len() && (#[trigger] init[i][j]).is_absolute()
                implies init[i][j].point().in_range() by {
            assert(paths[i][j] == init[i][j]);
        }
        lemma_wf_doc(init);
        let last = paths.last();
        assert forall|j: int| 0 <= j < last.len() && (#[trigger] last[j]).is_absolute()
            implies last[j].point().in_range() by {
            assert(paths[paths.len() - 1][j] == last[j]);
        }
        lemma_wf_path(observe_doc(Extent::empty(), init), last);
    }
}

proof fn lemma_wf_path(e: Extent, cmds: Seq<Command>)
    requires
        e.wf(),
        forall|j: int| 0 <= j < cmds.len() && (#[trigger] cmds[j]).is_absolute() ==> cmds[j].point().in_range(),
    ensures
        observe_path(e, cmds).wf(),
    decreases cmds.len(),
{
    if cmds.len() > 0 {
        let init = cmds.drop_last();
        assert forall|j: int| 0 <= j < init.len() && (#[trigger] init[j]).is_absolute()
            implies init[j].point().in_range() by {
            assert(cmds[j] == init[j]);
        }
        lemma_wf_path(e, init);
    }
}

/// Where every absolute point seen has x (or y) equal to the given value, so
/// do both bounds.
proof fn lemma_path_tight(e: Extent, cmds: Seq<Command>, x: i64, y: i64)
    ensures
        (e.seen_point ==> e.x_min == x && e.x_max == x)
            && (forall|j: int| 0 <= j < cmds.len() && (#[trigger] cmds[j]).is_absolute() ==> cmds[j].point().x == x)
            ==> (observe_path(e, cmds).seen_point ==> observe_path(e, cmds).x_min == x && observe_path(e, cmds).x_max == x),
        (e.seen_point ==> e.y_min == y && e.y_max == y)
            && (forall|j: int| 0 <= j < cmds.len() && (#[trigger] cmds[j]).is_absolute() ==> cmds[j].point().y == y)
            ==> (observe_path(e, cmds).seen_point ==> observe_path(e, cmds).y_min == y && observe_path(e, cmds).y_max == y),
    decreases cmds.len(),
{
    if cmds.len() > 0 {
        let init = cmds.drop_last();
        lemma_path_tight(e, init, x, y);
        if forall|j: int| 0 <= j < cmds.len() && (#[trigger] cmds[j]).is_absolute() ==> cmds[j].point().x == x {
            assert forall|j: int| 0 <= j < init.len() && (#[trigger] init[j]).is_absolute()
                implies init[j].point().x == x by {
                assert(cmds[j] == init[j]);
            }
        }
        if forall|j: int| 0 <= j < cmds.len() && (#[trigger] cmds[j]).is_absolute() ==> cmds[j].point().y == y {
            assert forall|j: int| 0 <= j < init.len() && (#[trigger] init[j]).is_absolute()
                implies init[j].point().y == y by {
                assert(cmds[j] == init[j]);
            }
        }
    }
}

proof fn lemma_doc_tight(e: Extent, paths: Seq<Seq<Command>>, x: i64, y: i64)
    ensures
        (e.seen_point ==> e.x_min == x && e.x_max == x)
            && (forall|i: int, j: int| 0 <= i < paths.len() && 0 <= j < paths[i].len()
                && (#[trigger] paths[i][j]).is_absolute() ==> paths[i][j].point().x == x)
            ==> (observe_doc(e, paths).seen_point ==> observe_doc(e, paths).x_min == x && observe_doc(e, paths).x_max == x),
        (e.seen_point ==> e.y_min == y && e.y_max == y)
            && (forall|i: int, j: int| 0 <= i < paths.len() && 0 <= j < paths[i].len()
                && (#[trigger] paths[i][j]).is_absolute() ==> paths[i][j].point().y == y)
            ==> (observe_doc(e, paths).seen_point ==> observe_doc(e, paths).y_min == y && observe_doc(e, paths).y_max == y),
    decreases paths.len(),
{
    if paths.len() > 0 {
        let init = paths.drop_last();
        let last = paths.last();
        lemma_doc_tight(e, init, x, y);
        lemma_path_tight(observe_doc(e, init), last, x, y);
        if forall|i: int, j: int| 0 <= i < paths.len() && 0 <= j < paths[i].len()
            && (#[trigger] paths[i][j]).is_absolute() ==> paths[i][j].point().x == x {
            assert forall|i: int, j: int| 0 <= i < init.len() && 0 <= j < init[i].len()
                && (#[trigger] init[i][j]).is_absolute() implies init[i][j].point().x == x by {
                assert(paths[i][j] == init[i][j]);
            }
            assert forall|j: int| 0 <= j < last.len() && (#[trigger] last[j]).is_absolute()
                implies last[j].point().x == x by {
                assert(paths[paths.len() - 1][j] == last[j]);
            }
        }
        if forall|i: int, j: int| 0 <= i < paths.len() && 0 <= j < paths[i].len()
            && (#[trigger] paths[i][j]).is_absolute() ==> paths[i][j].point().y == y {
            assert forall|i: int, j: int| 0 <= i < init.len() && 0 <= j < init[i].len()
                && (#[trigger] init[i][j]).is_absolute() implies init[i][j].point().y == y by {
                assert(paths[i][j] == init[i][j]);
            }
            assert forall|j: int| 0 <= j < last.len() && (#[trigger] last[j]).is_absolute()
                implies last[j].point().y == y by {
                assert(paths[paths.len() - 1][j] == last[j]);
            }
        }
    }
}

} // verus!
