use zero_kelvin::cleanup::{CleanupAction, CleanupRegistry, CreateTransaction, LuksTransaction};

#[test]
fn registry_register_and_clear() {
    let mut r = CleanupRegistry::new();
    r.register_cleanup_path("/out/a.img");
    r.register_cleanup_mapper("sq_a_img");
    assert_eq!(r.get_cleanup_path().as_deref(), Some("/out/a.img"));
    assert_eq!(r.get_cleanup_mapper().as_deref(), Some("sq_a_img"));
    r.clear_cleanup_mapper();
    assert_eq!(r.get_cleanup_mapper(), None);
    r.clear_cleanup_path();
    assert_eq!(r.get_cleanup_path(), None);
}

#[test]
fn interrupt_closes_mapper_before_removing_file() {
    let mut r = CleanupRegistry::new();
    let mut t = LuksTransaction::new("/out/a.img", &mut r);
    t.set_mapper("sq_a_img", &mut r);
    let plan = r.take_for_interrupt();
    assert_eq!(plan.len(), 3);
    assert!(matches!(plan[0], CleanupAction::KillChildren));
    assert!(matches!(&plan[1], CleanupAction::CloseMapper(m) if m == "sq_a_img"));
    assert!(matches!(&plan[2], CleanupAction::RemoveFile(p) if p == "/out/a.img"));
    assert_eq!(r.get_cleanup_path(), None);
    // The scoped release that runs afterwards does not close the mapper again.
    let after = t.release(&mut r);
    assert_eq!(after.len(), 1);
    assert!(matches!(&after[0], CleanupAction::RemoveFile(p) if p == "/out/a.img"));
}

#[test]
fn successful_luks_release_keeps_file() {
    let mut r = CleanupRegistry::new();
    let mut t = LuksTransaction::new("/out/a.img", &mut r);
    t.set_mapper("sq_a_img", &mut r);
    t.set_success();
    let steps = t.release(&mut r);
    assert_eq!(steps.len(), 3);
    assert!(matches!(steps[0], CleanupAction::Sync));
    assert!(matches!(steps[1], CleanupAction::SettleUdev));
    assert!(matches!(&steps[2], CleanupAction::CloseMapper(m) if m == "sq_a_img"));
    assert_eq!(r.get_cleanup_mapper(), None);
}

#[test]
fn plain_create_release() {
    let mut r = CleanupRegistry::new();
    let t = CreateTransaction::new("/out/p.sqfs", &mut r);
    assert_eq!(r.get_cleanup_path().as_deref(), Some("/out/p.sqfs"));
    let steps = t.release(&mut r);
    assert!(matches!(&steps[0], CleanupAction::RemoveFile(p) if p == "/out/p.sqfs"));
    let mut ok = CreateTransaction::new("/out/q.sqfs", &mut r);
    ok.set_success();
    assert!(ok.release(&mut r).is_empty());
    assert_eq!(r.get_cleanup_path(), None);
    assert!(r.take_for_interrupt().is_empty());
}

#[test]
fn interrupt_without_mapper_only_removes_file() {
    let mut r = CleanupRegistry::new();
    let _t = CreateTransaction::new("/out/p.sqfs", &mut r);
    let plan = r.take_for_interrupt();
    assert_eq!(plan.len(), 1);
    assert!(matches!(&plan[0], CleanupAction::RemoveFile(p) if p == "/out/p.sqfs"));
}
