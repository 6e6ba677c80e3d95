use rtsc::system::{count_processors, SystemConfig};
use rtsc::thread_rt::{heap_preallocation_needed, Params, SchedulerSetting, Scheduling};
use rtsc::Error;

#[test]
fn params_builders_and_getters() {
    let p = Params::new()
        .with_priority(Some(80))
        .with_scheduling(Scheduling::FIFO)
        .with_cpu_ids(&[1, 3]);
    assert_eq!(p.priority(), Some(80));
    assert_eq!(p.scheduling(), Scheduling::FIFO);
    assert_eq!(p.cpu_ids(), &[1, 3]);
    assert_eq!(Params::default(), Params::new());
    assert_eq!(Scheduling::default(), Scheduling::Other);
}

#[test]
fn params_plan_needs_root() {
    let p = Params::new().with_cpu_ids(&[0]);
    assert_eq!(p.plan(1000), Err(Error::AccessDenied));
    let p = Params::new().with_priority(Some(10));
    assert_eq!(p.plan(1000), Err(Error::AccessDenied));
    let plan = Params::new().plan(1000).unwrap();
    assert!(!plan.affinity);
    assert_eq!(plan.scheduler, None);
}

#[test]
fn params_plan_priority_zero_is_other() {
    let p = Params::new().with_priority(Some(0)).with_scheduling(Scheduling::RoundRobin);
    let plan = p.plan(0).unwrap();
    assert_eq!(
        plan.scheduler,
        Some(SchedulerSetting { policy: Scheduling::Other, priority: 0 })
    );
    let p = Params::new().with_priority(Some(5)).with_scheduling(Scheduling::RoundRobin).with_cpu_ids(&[2]);
    let plan = p.plan(0).unwrap();
    assert!(plan.affinity);
    assert_eq!(
        plan.scheduler,
        Some(SchedulerSetting { policy: Scheduling::RoundRobin, priority: 5 })
    );
}

#[test]
fn heap_preallocation_of_nothing_is_no_work() {
    assert!(!heap_preallocation_needed(0));
    assert!(heap_preallocation_needed(4096));
}

#[test]
fn system_config_keeps_pairs() {
    let cfg = SystemConfig::new()
        .set("kernel/sched_rt_runtime_us", "-1".to_owned())
        .set("vm/swappiness", "10".to_owned());
    assert_eq!(cfg.len(), 2);
    assert_eq!(cfg.entry(0), ("kernel/sched_rt_runtime_us", "-1"));
    assert_eq!(cfg.entry(1), ("vm/swappiness", "10"));
}

#[test]
fn count_processors_in_cpuinfo() {
    let text = "processor\t: 0\nvendor_id\t: x\n\nprocessor\t: 1\nmodel name\t: processor\nprocessors: 9\nprocessor";
    assert_eq!(count_processors(text), 3);
    assert_eq!(count_processors(""), 0);
    assert_eq!(count_processors("processor \u{a0}\r\n"), 1);
    assert_eq!(count_processors(" processor: 1"), 0);
}
