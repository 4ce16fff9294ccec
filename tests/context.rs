use jetporch::context::{Category, Position, RunContext};
use jetporch::summary::{summarize, Verdict};

#[test]
fn increments_count_per_host_and_in_total() {
    let mut ctx = RunContext::new();
    let a = String::from("a");
    let b = String::from("b");
    ctx.increment_for_host(&a, Category::Attempted);
    ctx.increment_for_host(&a, Category::Created);
    ctx.increment_for_host(&b, Category::Attempted);
    ctx.increment_for_host(&b, Category::Matched);
    ctx.increment_for_host(&a, Category::Attempted);
    ctx.increment_for_host(&a, Category::Executed);
    assert_eq!(ctx.get_count_for_host(&a, Category::Attempted), 2);
    assert_eq!(ctx.get_count_for_host(&b, Category::Attempted), 1);
    assert_eq!(ctx.get_count_for_host(&String::from("c"), Category::Attempted), 0);
    assert_eq!(ctx.get_total(Category::Attempted), 3);
    assert_eq!(ctx.get_total_adjusted_count(), 2);
    assert_eq!(ctx.get_hosts_seen_count(), 2);
    assert_eq!(ctx.get_hosts_count(Category::Attempted), 2);
    assert_eq!(ctx.get_hosts_count(Category::Created), 1);
    assert_eq!(ctx.get_hosts_adjusted_count(), 1);
}

#[test]
fn summary_figures() {
    let mut ctx = RunContext::new();
    let a = String::from("a");
    let b = String::from("b");
    ctx.increment_for_host(&a, Category::Attempted);
    ctx.increment_for_host(&a, Category::Modified);
    ctx.increment_for_host(&b, Category::Attempted);
    ctx.increment_for_host(&b, Category::Passive);
    ctx.increment_for_host(&b, Category::Failed);
    ctx.set_position(Position {
        playbook_path: Some(String::from("site.yml")),
        play: Some(String::from("web")),
        role: None,
        task: None,
        role_count: 2,
        task_count: 5,
    });
    let s = summarize(&ctx);
    assert_eq!(s.roles, 2);
    assert_eq!(s.tasks, 5);
    assert_eq!(s.seen_hosts, 2);
    assert_eq!(s.attempted.items, 2);
    assert_eq!(s.modified.items, 1);
    assert_eq!(s.modified.hosts, 1);
    assert_eq!(s.passive.items, 1);
    assert_eq!(s.changed.items, 1);
    assert_eq!(s.changed.hosts, 1);
    assert_eq!(s.unchanged.items, 1);
    assert_eq!(s.unchanged.hosts, 1);
    assert_eq!(s.failed.items, 1);
    assert_eq!(s.failed.hosts, 1);
    assert_eq!(s.verdict, Verdict::Failures);
    assert_eq!(ctx.get_position().play.as_deref(), Some("web"));
}

#[test]
fn empty_run_is_perfect() {
    let ctx = RunContext::new();
    let s = summarize(&ctx);
    assert_eq!(s.verdict, Verdict::Perfect);
    assert_eq!(s.seen_hosts, 0);
    assert_eq!(s.unchanged.items, 0);
}
