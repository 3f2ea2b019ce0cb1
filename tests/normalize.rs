use pathfit::document::{read_paths, DocumentError};
use pathfit::extent::{get_size, Extent};
use pathfit::geometry::{Command, Point, Position};
use pathfit::mapper::{CoordinateMapper, Frame, GeometryError};
use pathfit::rewrite::{normalize, rewrite_path, NormalizeError};

fn pt(x: i64, y: i64) -> Point {
    Point { x, y }
}

fn abs_move(x: i64, y: i64) -> Command {
    Command::Move(Position::Absolute, pt(x, y))
}

fn abs_line(x: i64, y: i64) -> Command {
    Command::Line(Position::Absolute, pt(x, y))
}

fn square() -> Vec<Command> {
    vec![
        abs_move(0, 0),
        abs_line(10_000, 0),
        abs_line(10_000, 10_000),
        abs_line(0, 10_000),
        Command::Close,
    ]
}

#[test]
fn square_scaled_to_requested_frame() {
    let out = normalize(&vec![square()], Some(100), Some(50)).unwrap();
    assert_eq!(out.paths.len(), 1);
    assert_eq!(
        out.paths[0],
        vec![
            abs_move(0, 0),
            abs_line(100_000, 0),
            abs_line(100_000, 50_000),
            abs_line(0, 50_000),
            Command::Close,
            Command::Close,
        ]
    );
    assert_eq!(out.frame, Frame { x: 0, y: 0, width: 100, height: 50 });
}

#[test]
fn relative_line_fails_whole_document() {
    let tainted = vec![abs_move(0, 0), Command::Line(Position::Relative, pt(5_000, 5_000))];
    let r = normalize(&vec![square(), tainted], Some(100), Some(50));
    assert_eq!(r.unwrap_err(), NormalizeError::InvalidGeometry);
}

#[test]
fn relative_move_clears_all_absolute() {
    let size = get_size(&vec![vec![Command::Move(Position::Relative, pt(1, 1)), abs_line(4, 7)]]);
    assert!(!size.all_absolute);
    assert!(size.seen_point);
    assert_eq!((size.x_min, size.x_max, size.y_min, size.y_max), (4, 4, 7, 7));
    assert!(!size.is_valid());
}

#[test]
fn empty_document_is_invalid() {
    let r = normalize(&vec![vec![Command::Close]], None, None);
    assert_eq!(r.unwrap_err(), NormalizeError::InvalidGeometry);
    assert_eq!(Extent::new().prepare(None, None), Err(GeometryError::InvalidGeometry));
}

#[test]
fn shared_x_is_degenerate() {
    let path = vec![abs_move(3_000, 0), abs_line(3_000, 9_000)];
    let r = normalize(&vec![path], None, None);
    assert_eq!(r.unwrap_err(), NormalizeError::DegenerateGeometry);
}

#[test]
fn shared_y_is_degenerate() {
    let path = vec![abs_move(0, -2_000), abs_line(9_000, -2_000)];
    let r = normalize(&vec![path], Some(10), Some(10));
    assert_eq!(r.unwrap_err(), NormalizeError::DegenerateGeometry);
}

#[test]
fn identity_scale_keeps_points() {
    let path = vec![abs_move(0, 0), abs_line(12_345, 678), abs_line(20_000, 30_000)];
    let out = normalize(&vec![path], None, None).unwrap();
    assert_eq!(
        out.paths[0],
        vec![abs_move(0, 0), abs_line(12_345, 678), abs_line(20_000, 30_000), Command::Close]
    );
}

#[test]
fn offset_box_is_moved_to_origin() {
    let path = vec![abs_move(-5_000, 2_000), abs_line(5_000, 6_000)];
    let out = normalize(&vec![path], None, None).unwrap();
    assert_eq!(out.paths[0], vec![abs_move(0, 0), abs_line(10_000, 4_000), Command::Close]);
}

#[test]
fn rewritten_points_stay_in_target_box() {
    let a = vec![abs_move(-7_001, 13), abs_line(2_999, 4_321), abs_line(-1_234, 99_999)];
    let b = vec![abs_move(555, 555), Command::Close, abs_line(0, 0)];
    let out = normalize(&vec![a, b], Some(255), Some(1)).unwrap();
    for path in out.paths.iter() {
        for c in path.iter() {
            match c {
                Command::Move(pos, p) | Command::Line(pos, p) => {
                    assert_eq!(*pos, Position::Absolute);
                    assert!(0 <= p.x && p.x <= 255_000);
                    assert!(0 <= p.y && p.y <= 1_000);
                }
                Command::Close => {}
                Command::Unsupported(_) => panic!("unsupported command in output"),
            }
        }
        assert_eq!(*path.last().unwrap(), Command::Close);
    }
    assert_eq!(out.paths[0][0], abs_move(0, 0));
    assert_eq!(out.paths[0][1], abs_line(255_000, 43));
}

#[test]
fn scaled_coordinate_rounds_to_nearest() {
    // (1 - 0) / 3 * 1000 = 333.33..., (2 - 0) / 3 * 1000 = 666.66...
    let path = vec![abs_move(0, 0), abs_line(1, 1), abs_line(2, 2), abs_line(3, 3)];
    let out = normalize(&vec![path], Some(1), Some(1)).unwrap();
    assert_eq!(out.paths[0][1], abs_line(333, 333));
    assert_eq!(out.paths[0][2], abs_line(667, 667));
    assert_eq!(out.paths[0][3], abs_line(1_000, 1_000));
}

#[test]
fn unclosed_path_gets_one_close() {
    let path = vec![abs_move(0, 0), abs_line(1_000, 1_000)];
    let out = normalize(&vec![path], None, None).unwrap();
    assert_eq!(out.paths[0].len(), 3);
    assert_eq!(out.paths[0][2], Command::Close);
    assert_ne!(out.paths[0][1], Command::Close);
}

#[test]
fn relative_commands_become_absolute_in_rewrite() {
    let m = CoordinateMapper {
        x_min: 0,
        y_min: 0,
        x_length: 10,
        y_length: 10,
        target_x_length: 20,
        target_y_length: 40,
    };
    let path = vec![Command::Move(Position::Relative, pt(5, 10)), Command::Line(Position::Relative, pt(10, 0))];
    let out = rewrite_path(&path, &m).unwrap();
    assert_eq!(out, vec![abs_move(10, 40), abs_line(20, 0), Command::Close]);
}

#[test]
fn unsupported_command_is_reported() {
    let path = vec![abs_move(0, 0), abs_line(1_000, 1_000), Command::Unsupported('C'), Command::Unsupported('A')];
    let r = normalize(&vec![path], None, None);
    assert_eq!(r.unwrap_err(), NormalizeError::UnsupportedCommand('C'));
}

#[test]
fn unsupported_command_is_skipped_by_scan() {
    let size = get_size(&vec![vec![Command::Unsupported('Q'), abs_move(2, 3)]]);
    assert!(size.is_valid());
    assert_eq!((size.x_min, size.x_max, size.y_min, size.y_max), (2, 2, 3, 3));
}

#[test]
fn frame_from_extent_is_rounded() {
    let path = vec![abs_move(0, 0), abs_line(10_500, 2_499)];
    let out = normalize(&vec![path], None, None).unwrap();
    assert_eq!(out.frame, Frame { x: 0, y: 0, width: 11, height: 2 });
}

#[test]
fn frame_with_one_requested_side() {
    let path = vec![abs_move(0, 0), abs_line(7_600, 3_000)];
    let out = normalize(&vec![path], Some(9), None).unwrap();
    assert_eq!(out.frame, Frame { x: 0, y: 0, width: 9, height: 3 });
}

#[test]
fn add_pt_widens_box() {
    let mut e = Extent::new();
    e.add_pt(pt(-4, 9));
    e.add_pt(pt(6, -1));
    e.add_pt(pt(0, 3));
    assert_eq!((e.x_min, e.x_max, e.y_min, e.y_max), (-4, 6, -1, 9));
    let m = e.prepare(None, Some(2)).unwrap();
    assert_eq!((m.x_length, m.y_length, m.target_x_length, m.target_y_length), (10, 10, 10, 2_000));
}

#[test]
fn document_paths_are_read_in_order() {
    let doc = "<?xml version=\"1.0\"?>\n<svg xmlns=\"http://www.w3.org/2000/svg\">\n<!-- art -->\n<g><path d=\"M0,0 L1,1\"/></g>\n<path d=\"M2,2 L3,3 Z\"></path>\n</svg>\n";
    let paths = read_paths(doc).unwrap();
    assert_eq!(paths, vec!["M0,0 L1,1".to_string(), "M2,2 L3,3 Z".to_string()]);
}

#[test]
fn path_without_data_is_an_error() {
    let doc = "<svg><path fill=\"red\"/></svg>";
    assert_eq!(read_paths(doc), Err(DocumentError::MissingPathData));
}

#[test]
fn document_without_paths_gives_none() {
    let doc = "<svg><rect width=\"3\"/></svg>";
    assert_eq!(read_paths(doc), Ok(vec![]));
}

#[test]
fn malformed_document_is_an_error() {
    let doc = "<svg><path d=\"M0,0 L1,1\"/><!-- never closed";
    assert_eq!(read_paths(doc), Err(DocumentError::Malformed));
}
