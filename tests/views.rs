use flutter_layer::compositor::{
    Compositor, CompositorLayer, ConfigureEffect, ConfigureOutcome, FlutterView, GpuCommand,
    NonZeroSize, PresentOutcome, ViewId, WindowMetrics,
};
use flutter_layer::layer_shell::{requested_size, Margin, Size};

/// Carries out a configure plan the way the event loop does and counts the
/// metrics updates that reach the engine.
fn run_configure(c: &mut Compositor, id: ViewId, serial: u32, w: u32, h: u32) -> (usize, Vec<u32>) {
    let mut metrics = 0;
    let mut acks = Vec::new();
    if let ConfigureOutcome::Apply(effects) = c.plan_configure(id, serial, w, h) {
        for e in effects {
            match e {
                ConfigureEffect::SendWindowMetrics(_) => metrics += 1,
                ConfigureEffect::StoreSize { view_id, size } => assert!(c.store_size(view_id, size)),
                ConfigureEffect::AckConfigure { serial } => acks.push(serial),
            }
        }
    }
    (metrics, acks)
}

#[test]
fn view_id_round_trips() {
    assert_eq!(ViewId::new(0).raw(), 0);
    assert_eq!(ViewId::new(-3).raw(), -3);
    assert_eq!(ViewId::new(7), ViewId::new(7));
    assert_ne!(ViewId::new(7), ViewId::new(8));
}

#[test]
fn non_zero_size_needs_both_sides() {
    assert_eq!(NonZeroSize::new(0, 5), None);
    assert_eq!(NonZeroSize::new(5, 0), None);
    assert_eq!(NonZeroSize::new(0, 0), None);
    assert_eq!(NonZeroSize::new(3, 4), Some(NonZeroSize { width: 3, height: 4 }));
}

#[test]
fn init_registers_implicit_view() {
    let c = Compositor::init();
    let v = c.get_view(ViewId::new(0)).unwrap();
    assert_eq!(v.size, NonZeroSize { width: 1600, height: 900 });
    assert_eq!(v.surface_size, v.size);
    assert!(c.get_view(ViewId::new(1)).is_none());
}

#[test]
fn zero_then_positive_configure() {
    let mut c = Compositor::init();
    let id = ViewId::new(0);
    assert!(matches!(c.plan_configure(id, 1, 0, 0), ConfigureOutcome::Ignored));
    assert_eq!(run_configure(&mut c, id, 1, 0, 0), (0, vec![]));
    assert_eq!(c.get_view(id).unwrap().size, NonZeroSize { width: 1600, height: 900 });
    assert_eq!(run_configure(&mut c, id, 2, 800, 600), (1, vec![2]));
    let v = c.get_view(id).unwrap();
    assert_eq!(v.size, NonZeroSize { width: 800, height: 600 });
    assert_eq!(v.surface_size, NonZeroSize { width: 1600, height: 900 });
}

#[test]
fn one_zero_side_is_ignored() {
    let mut c = Compositor::init();
    let id = ViewId::new(0);
    assert!(matches!(c.plan_configure(id, 3, 800, 0), ConfigureOutcome::Ignored));
    assert!(matches!(c.plan_configure(id, 3, 0, 600), ConfigureOutcome::Ignored));
    assert_eq!(run_configure(&mut c, id, 3, 0, 600), (0, vec![]));
    assert_eq!(c.get_view(id).unwrap().size, NonZeroSize { width: 1600, height: 900 });
}

#[test]
fn positive_configure_orders_its_steps() {
    let c = Compositor::init();
    let id = ViewId::new(0);
    match c.plan_configure(id, 9, 1024, 768) {
        ConfigureOutcome::Apply(effects) => assert_eq!(
            effects,
            vec![
                ConfigureEffect::SendWindowMetrics(WindowMetrics {
                    width: 1024,
                    height: 768,
                    left: 0,
                    top: 0,
                    display_id: 0,
                    view_id: 0,
                }),
                ConfigureEffect::StoreSize { view_id: id, size: NonZeroSize { width: 1024, height: 768 } },
                ConfigureEffect::AckConfigure { serial: 9 },
            ]
        ),
        _ => panic!("a positive configure must be applied"),
    }
}

#[test]
fn configure_for_unknown_view_does_nothing() {
    let mut c = Compositor::init();
    assert!(matches!(c.plan_configure(ViewId::new(4), 1, 800, 600), ConfigureOutcome::ViewNotFound));
    assert!(!c.store_size(ViewId::new(4), NonZeroSize { width: 8, height: 6 }));
    assert_eq!(c.get_view(ViewId::new(0)).unwrap().size, NonZeroSize { width: 1600, height: 900 });
}

#[test]
fn present_on_unregistered_view_is_not_handled() {
    let mut c = Compositor::init();
    let layers = vec![CompositorLayer::BackingStore { texture: 3 }];
    assert!(matches!(c.present_view(ViewId::new(5), &layers), PresentOutcome::NotHandled));
    assert!(c.get_view(ViewId::new(5)).is_none());
    let v = c.get_view(ViewId::new(0)).unwrap();
    assert_eq!(v.surface_size, NonZeroSize { width: 1600, height: 900 });
}

#[test]
fn present_draws_each_backing_store() {
    let mut c = Compositor::init();
    let id = ViewId::new(0);
    let layers = vec![
        CompositorLayer::BackingStore { texture: 3 },
        CompositorLayer::PlatformView { identifier: 42 },
        CompositorLayer::BackingStore { texture: 8 },
    ];
    match c.present_view(id, &layers) {
        PresentOutcome::Presented(cmds) => assert_eq!(
            cmds,
            vec![
                GpuCommand::MakeCurrent { view_id: id },
                GpuCommand::SaveBindings,
                GpuCommand::DrawTexture { texture: 3 },
                GpuCommand::SwapBuffers { view_id: id },
                GpuCommand::RestoreBindings,
                GpuCommand::SkipPlatformView { identifier: 42 },
                GpuCommand::SaveBindings,
                GpuCommand::DrawTexture { texture: 8 },
                GpuCommand::SwapBuffers { view_id: id },
                GpuCommand::RestoreBindings,
                GpuCommand::ClearCurrent,
            ]
        ),
        PresentOutcome::NotHandled => panic!("the implicit view is registered"),
    }
}

#[test]
fn present_resizes_once_after_configure() {
    let mut c = Compositor::init();
    let id = ViewId::new(0);
    run_configure(&mut c, id, 1, 800, 600);
    match c.present_view(id, &vec![]) {
        PresentOutcome::Presented(cmds) => assert_eq!(
            cmds,
            vec![
                GpuCommand::ResizeSurface { view_id: id, width: 800, height: 600 },
                GpuCommand::MakeCurrent { view_id: id },
                GpuCommand::ClearCurrent,
            ]
        ),
        PresentOutcome::NotHandled => panic!("the implicit view is registered"),
    }
    assert_eq!(c.get_view(id).unwrap().surface_size, NonZeroSize { width: 800, height: 600 });
    match c.present_view(id, &vec![]) {
        PresentOutcome::Presented(cmds) => assert_eq!(
            cmds,
            vec![GpuCommand::MakeCurrent { view_id: id }, GpuCommand::ClearCurrent]
        ),
        PresentOutcome::NotHandled => panic!("the implicit view is registered"),
    }
}

#[test]
fn views_can_be_added_and_removed() {
    let mut c = Compositor::init();
    let extra = FlutterView {
        view_id: ViewId::new(2),
        size: NonZeroSize { width: 10, height: 20 },
        surface_size: NonZeroSize { width: 10, height: 20 },
    };
    assert!(c.insert_view(extra));
    assert!(!c.insert_view(extra));
    assert_eq!(c.get_view(ViewId::new(2)), Some(&extra));
    assert_eq!(c.remove_view(ViewId::new(2)), Some(extra));
    assert_eq!(c.remove_view(ViewId::new(2)), None);
    assert!(matches!(c.present_view(ViewId::new(2), &vec![]), PresentOutcome::NotHandled));
    assert!(c.get_view(ViewId::new(0)).is_some());
}

#[test]
fn configure_touches_only_its_view() {
    let mut c = Compositor::init();
    let other = FlutterView {
        view_id: ViewId::new(1),
        size: NonZeroSize { width: 10, height: 20 },
        surface_size: NonZeroSize { width: 10, height: 20 },
    };
    c.insert_view(other);
    assert_eq!(run_configure(&mut c, ViewId::new(1), 5, 30, 40), (1, vec![5]));
    assert_eq!(c.get_view(ViewId::new(1)).unwrap().size, NonZeroSize { width: 30, height: 40 });
    assert_eq!(c.get_view(ViewId::new(0)).unwrap().size, NonZeroSize { width: 1600, height: 900 });
}

#[test]
fn layer_surface_size_defaults_to_zero() {
    assert_eq!(requested_size(None), Size { width: 0, height: 0 });
    assert_eq!(requested_size(Some(Size { width: 800, height: 600 })), Size { width: 800, height: 600 });
    let m = Margin { left: 1, right: 2, top: 3, bottom: 4 };
    assert_eq!(m.left + m.right + m.top + m.bottom, 10);
}

#[test]
fn configure_to_presented_size_needs_no_resize() {
    let mut c = Compositor::init();
    let id = ViewId::new(0);
    assert_eq!(run_configure(&mut c, id, 1, 1600, 900), (1, vec![1]));
    match c.present_view(id, &vec![]) {
        PresentOutcome::Presented(cmds) => assert_eq!(
            cmds,
            vec![GpuCommand::MakeCurrent { view_id: id }, GpuCommand::ClearCurrent]
        ),
        PresentOutcome::NotHandled => panic!("the implicit view is registered"),
    }
    run_configure(&mut c, id, 2, 800, 600);
    run_configure(&mut c, id, 3, 1600, 900);
    match c.present_view(id, &vec![]) {
        PresentOutcome::Presented(cmds) => assert_eq!(cmds.len(), 2),
        PresentOutcome::NotHandled => panic!("the implicit view is registered"),
    }
}

#[test]
fn equal_raw_values_give_equal_ids() {
    assert_eq!(ViewId::new(12), ViewId { raw: 12 });
    assert_eq!(ViewId::new(12).raw, 12);
}
