use minivector::gfx::{surface_error_action, Point, SurfaceAction, SurfaceIssue};

#[test]
fn point_new_maps_power_to_a_flag() {
    assert_eq!(Point::new(1, 2, true), Point { x: 1, y: 2, power: 1 });
    assert_eq!(Point::new(1, 2, false), Point { x: 1, y: 2, power: 0 });
}

#[test]
fn point_position_encode_round_trip() {
    let p = Point::new(10, 10, true);
    assert_eq!(p.encode(), 655370);
    let back = Point::from_data(p.encode());
    assert_eq!((back.x, back.y), (10, 10));
    assert_eq!(back.power, 0);
}

#[test]
fn surface_loss_reconfigures_and_oom_is_fatal() {
    assert_eq!(surface_error_action(SurfaceIssue::Outdated), SurfaceAction::Reconfigure);
    assert_eq!(surface_error_action(SurfaceIssue::Lost), SurfaceAction::Reconfigure);
    assert_eq!(surface_error_action(SurfaceIssue::OutOfMemory), SurfaceAction::Fatal);
    assert_eq!(surface_error_action(SurfaceIssue::Transient), SurfaceAction::Skip);
}
