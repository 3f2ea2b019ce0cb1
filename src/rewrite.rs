//! Rewriting paths into the target frame, one path and a whole document.
use vstd::prelude::*;
use crate::extent::{Extent, doc_view, get_size, lemma_doc_facts, observe_doc};
use crate::geometry::{Command, Position, doc_has_absolute, doc_has_relative, doc_in_range};
use crate::mapper::{CoordinateMapper, Frame, GeometryError};

verus! {

/// A command that a path cannot be rewritten with, by its letter.
#[derive(Clone, Copy, Debug, PartialEq, Eq, Structural)]
pub struct UnsupportedCommand {
    pub letter: char,
}

/// Why a document cannot be normalized.
#[derive(Clone, Copy, Debug, PartialEq, Eq, Structural)]
pub enum NormalizeError {
    /// A relative move or line occurs somewhere, or no absolute point at all.
    InvalidGeometry,
    /// All absolute points share one x, or one y.
    DegenerateGeometry,
    /// A path holds a command other than move, line and close.
    UnsupportedCommand(char),
}

/// A normalized document: its rewritten paths and its frame.
#[derive(Debug)]
pub struct Normalized {
    pub paths: Vec<Vec<Command>>,
    pub frame: Frame,
}

/// One command in the target frame: the point of a move or a line is mapped
/// and made absolute.
pub open spec fn rewrite_command(m: CoordinateMapper, c: Command) -> Command {
    match c {
        Command::Move(_, p) => Command::Move(Position::Absolute, m.map_spec(p)),
        Command::Line(_, p) => Command::Line(Position::Absolute, m.map_spec(p)),
        _ => c,
    }
}

/// A path in the target frame: each command rewritten, then one close appended.
pub open spec fn rewritten(m: CoordinateMapper, cmds: Seq<Command>) -> Seq<Command> {
    cmds.map_values(|c: Command| rewrite_command(m, c)).push(Command::Close)
}

/// No command of the path is unsupported.
pub open spec fn path_supported(cmds: Seq<Command>) -> bool {
    forall|j: int| 0 <= j < cmds.len() ==> !(#[trigger] cmds[j] is Unsupported)
}

/// The first unsupported command of the path stands at `j`.
pub open spec fn first_unsupported_at(cmds: Seq<Command>, j: int) -> bool {
    &&& 0 <= j < cmds.len()
    &&& cmds[j] is Unsupported
    &&& path_supported(cmds.take(j))
}

/// The first unsupported command of the document stands in path `i` at `j`.
pub open spec fn doc_first_unsupported_at(paths: Seq<Seq<Command>>, i: int, j: int) -> bool {
    &&& 0 <= i < paths.len()
    &&& first_unsupported_at(paths[i], j)
    &&& forall|k: int| 0 <= k < i ==> path_supported(#[trigger] paths[k])
}

/// Rewrites one path with the mapper: every move and line becomes absolute at
/// its mapped point, a close stays, and a close is appended at the end. Fails
/// on the first command that is neither move, line nor close.
pub fn rewrite_path(cmds: &Vec<Command>, m: &CoordinateMapper) -> (r: Result<Vec<Command>, UnsupportedCommand>)
    requires
        m.wf(),
        forall|j: int| 0 <= j < cmds@.len() && (#[trigger] cmds@[j]).has_point()
            ==> m.contains(cmds@[j].point()),
    ensures
        r is Ok <==> path_supported(cmds@),
        r matches Ok(out) ==> out@ == rewritten(*m, cmds@),
        r matches Err(e) ==> exists|j: int|
            first_unsupported_at(cmds@, j) && cmds@[j] == Command::Unsupported(e.letter),
{
    let mut out: Vec<Command> = Vec::new();
    let mut j: usize = 0;
    while j < cmds.len()
        invariant
            0 <= j <= cmds@.len(),
            m.wf(),
            forall|k: int| 0 <= k < cmds@.len() && (#[trigger] cmds@[k]).has_point()
                ==> m.contains(cmds@[k].point()),
            path_supported(cmds@.take(j as int)),
            out@ == cmds@.take(j as int).map_values(|c: Command| rewrite_command(*m, c)),
        decreases cmds@.len() - j,
    {
        let next = match &cmds[j] {
            Command::Move(_, p) => Command::Move(Position::Absolute, m.map(p)),
            Command::Line(_, p) => Command::Line(Position::Absolute, m.map(p)),
            Command::Close => Command::Close,
            Command::Unsupported(letter) => {
                proof {
                    assert(first_unsupported_at(cmds@, j as int));
                }
                return Err(UnsupportedCommand { letter: *letter });
            },
        };
        out.push(next);
        proof {
            let t = cmds@.take(j + 1);
            assert(t.map_values(|c: Command| rewrite_command(*m, c))
                =~= cmds@.take(j as int).map_values(|c: Command| rewrite_command(*m, c)).push(next));
            assert forall|k: int| 0 <= k < t.len() implies !(#[trigger] t[k] is Unsupported) by {
                if k < j {
                    assert(cmds@.take(j as int)[k] == t[k]);
                }
            }
        }
        j += 1;
    }
    out.push(Command::Close);
    proof {
        assert(cmds@.take(j as int) == cmds@);
    }
    Ok(out)
}

/// Normalizes a document: scans all paths for their extent, builds the mapper
/// with the requested width and length (in user units), and rewrites every
/// path with it. Fails fast on the first error.
pub fn normalize(paths: &Vec<Vec<Command>>, width: Option<u8>, length: Option<u8>) -> (r: Result<Normalized, NormalizeError>)
    requires
        doc_in_range(doc_view(paths@)),
    ensures
        ({
            let d = doc_view(paths@);
            let e = observe_doc(Extent::empty(), d);
            let m = e.mapper_spec(width, length);
            &&& (r == Err::<Normalized, NormalizeError>(NormalizeError::InvalidGeometry)
                <==> doc_has_relative(d) || !doc_has_absolute(d))
            &&& (r == Err::<Normalized, NormalizeError>(NormalizeError::DegenerateGeometry)
                <==> !doc_has_relative(d) && doc_has_absolute(d) && (e.x_min == e.x_max || e.y_min == e.y_max))
            &&& (r is Ok <==> !doc_has_relative(d) && doc_has_absolute(d) && e.x_min != e.x_max
                && e.y_min != e.y_max && forall|i: int| 0 <= i < d.len() ==> path_supported(#[trigger] d[i]))
            &&& r matches Err(NormalizeError::UnsupportedCommand(ch)) ==> exists|i: int, j: int|
                doc_first_unsupported_at(d, i, j) && d[i][j] == Command::Unsupported(ch)
            &&& r matches Ok(n) ==> {
                &&& n.paths@.len() == paths@.len()
                &&& forall|i: int| 0 <= i < paths@.len() ==> (#[trigger] n.paths@[i])@ == rewritten(m, d[i])
                &&& n.frame == m.frame_spec()
            }
        }),
{
    let size = get_size(paths);
    let ghost d = doc_view(paths@);
    let m = match size.prepare(width, length) {
        Ok(m) => m,
        Err(GeometryError::InvalidGeometry) => {
            return Err(NormalizeError::InvalidGeometry);
        },
        Err(GeometryError::DegenerateGeometry) => {
            return Err(NormalizeError::DegenerateGeometry);
        },
    };
    let mut out: Vec<Vec<Command>> = Vec::new();
    let mut i: usize = 0;
    while i < paths.len()
        invariant
            0 <= i <= paths@.len(),
            d == doc_view(paths@),
            m == size.mapper_spec(width, length),
            m.wf(),
            size == observe_doc(Extent::empty(), d),
            size.all_absolute == !doc_has_relative(d),
            size.all_absolute,
            size.seen_point == doc_has_absolute(d),
            size.seen_point,
            size.wf(),
            size.x_min != size.x_max,
            size.y_min != size.y_max,
            forall|a: int, b: int|
                0 <= a < paths@.len() && 0 <= b < paths@[a]@.len()
                    && (#[trigger] paths@[a]@[b]).is_absolute() ==> size.covers(paths@[a]@[b].point()),
            out@.len() == i,
            forall|k: int| 0 <= k < i ==> (#[trigger] out@[k])@ == rewritten(m, d[k]),
            forall|k: int| 0 <= k < i ==> path_supported(#[trigger] d[k]),
        decreases paths@.len() - i,
    {
        proof {
            assert(d[i as int] == paths@[i as int]@);
            assert forall|j: int| 0 <= j < paths@[i as int]@.len() && (#[trigger] paths@[i as int]@[j]).has_point()
                implies m.contains(paths@[i as int]@[j].point()) by {
                assert(d[i as int][j] == paths@[i as int]@[j]);
                if paths@[i as int]@[j].is_relative() {
                    assert(doc_has_relative(d));
                } else {
                    assert(paths@[i as int]@[j].is_absolute());
                    assert(size.covers(paths@[i as int]@[j].point()));
                }
            }
        }
        match rewrite_path(&paths[i], &m) {
            Ok(p) => {
                out.push(p);
            },
            Err(e) => {
                proof {
                    let j = choose|j: int|
                        first_unsupported_at(paths@[i as int]@, j) && paths@[i as int]@[j] == Command::Unsupported(e.letter);
                    assert(doc_first_unsupported_at(d, i as int, j));
                }
                return Err(NormalizeError::UnsupportedCommand(e.letter));
            },
        }
        i += 1;
    }
    let frame = m.view_box();
    Ok(Normalized { paths: out, frame })
}

} // verus!
