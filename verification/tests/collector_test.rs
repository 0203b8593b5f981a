use vfio_benchmark::collector::{Access, Event, Phase, SampleCollector, Step};
use vfio_benchmark::config::{AccessPath, BenchConfig, OffsetStrategy, OperationKind};
use vfio_benchmark::error::{BenchError, Cause};
use vfio_benchmark::region::{Permissions, RegionInfo};

fn bar() -> RegionInfo {
    RegionInfo { length: 1 << 20, permissions: Permissions::ReadWrite, mappable: true }
}

fn config(operation: OperationKind, path: AccessPath, size: u64, iterations: u32) -> BenchConfig {
    BenchConfig {
        operation,
        access_path: path,
        strategy: OffsetStrategy::Wraparound,
        transaction_size: size,
        iterations,
        window_size: 16384,
    }
}

fn expect_access(step: Step) -> Access {
    match step {
        Step::Access(a) => a,
        other => panic!("expected an access, got {:?}", other),
    }
}

#[test]
fn run_of_five_hundred_reads_of_128_bytes() {
    let cfg = config(OperationKind::Read, AccessPath::ByteAtATime, 128, 500);
    let mut c = SampleCollector::new(cfg, bar()).unwrap();
    assert_eq!(c.phase(), Phase::Sampling);
    assert!(!c.shows_progress());
    let mut offsets = Vec::new();
    let mut total: u128 = 0;
    for i in 0..500u32 {
        let a = expect_access(c.next_step());
        assert_eq!(a.repetition, i);
        assert_eq!(a.iterations, 500);
        assert_eq!(a.operation, OperationKind::Read);
        assert_eq!(a.path, AccessPath::ByteAtATime);
        assert_eq!(a.size, 128);
        assert_eq!(a.pattern, None);
        assert!(!a.report_progress);
        assert_eq!(a.offset % 128, 0);
        assert!(a.offset + a.size <= 16384);
        offsets.push(a.offset);
        let elapsed = 1_000 + (i as u64 % 7);
        total += elapsed as u128;
        assert_eq!(c.advance(Event::Completed { elapsed }), Ok(()));
    }
    // 0, 128, ..., 16128, then back to 0
    for i in 0..127usize {
        assert_eq!(offsets[i], 128 * i as u64);
    }
    assert_eq!(offsets[127], 0);
    assert_eq!(offsets[128], 128);
    assert_eq!(offsets[499], (499 * 128) % 16256);
    assert_eq!(*offsets.iter().max().unwrap(), 16384 - 256);
    assert_eq!(c.next_step(), Step::Finish);
    assert!(c.is_finished());
    assert_eq!(c.samples().len(), 500);
    let r = c.finish().unwrap();
    assert_eq!(r.iterations, 500);
    assert_eq!(r.block_size, 128);
    assert_eq!(r.total_time, total);
    assert_eq!(r.total_bytes, 128 * 500);
    assert_eq!(r.throughput(), Some(128 * 500 * 1_000_000_000 / total));
}

#[test]
fn oversized_transaction_fails_before_any_repetition() {
    let cfg = config(OperationKind::Read, AccessPath::ByteAtATime, 16385, 500);
    assert_eq!(
        SampleCollector::new(cfg, bar()).err(),
        Some(BenchError::Operation { offset: 0, size: 16385, cause: Cause::OutOfBounds })
    );
    let mapped = config(OperationKind::Write, AccessPath::Mapped, 1 << 30, 1);
    assert_eq!(
        SampleCollector::new(mapped, bar()).err(),
        Some(BenchError::Operation { offset: 0, size: 1 << 30, cause: Cause::OutOfBounds })
    );
}

#[test]
fn transaction_of_no_bytes_is_refused() {
    let cfg = config(OperationKind::Read, AccessPath::Bulk, 0, 10);
    assert_eq!(SampleCollector::new(cfg, bar()).err(), Some(BenchError::Precondition));
}

#[test]
fn window_must_fit_the_region() {
    let cfg = config(OperationKind::Read, AccessPath::Bulk, 128, 10);
    let short = RegionInfo { length: 16383, permissions: Permissions::ReadWrite, mappable: true };
    assert_eq!(
        SampleCollector::new(cfg, short).err(),
        Some(BenchError::Operation { offset: 0, size: 16384, cause: Cause::OutOfBounds })
    );
    let exact = RegionInfo { length: 16384, permissions: Permissions::ReadWrite, mappable: true };
    assert!(SampleCollector::new(cfg, exact).is_ok());
}

#[test]
fn region_must_allow_the_operation() {
    let read_only = RegionInfo { length: 1 << 20, permissions: Permissions::ReadOnly, mappable: true };
    let denied = |size: u64| BenchError::Operation { offset: 0, size, cause: Cause::PermissionDenied };
    assert!(SampleCollector::new(config(OperationKind::Read, AccessPath::Bulk, 64, 1), read_only).is_ok());
    assert_eq!(
        SampleCollector::new(config(OperationKind::Write, AccessPath::Bulk, 64, 1), read_only).err(),
        Some(denied(64))
    );
    assert_eq!(
        SampleCollector::new(config(OperationKind::ReadWrite, AccessPath::Bulk, 32, 1), read_only).err(),
        Some(denied(32))
    );
    let write_only = RegionInfo { length: 1 << 20, permissions: Permissions::WriteOnly, mappable: true };
    assert!(SampleCollector::new(config(OperationKind::Write, AccessPath::Bulk, 64, 1), write_only).is_ok());
    assert_eq!(
        SampleCollector::new(config(OperationKind::Read, AccessPath::Bulk, 64, 1), write_only).err(),
        Some(denied(64))
    );
    let closed = RegionInfo { length: 1 << 20, permissions: Permissions::NoAccess, mappable: true };
    assert_eq!(
        SampleCollector::new(config(OperationKind::Read, AccessPath::Bulk, 8, 1), closed).err(),
        Some(denied(8))
    );
}

#[test]
fn mapped_path_needs_a_mappable_region() {
    let fixed = RegionInfo { length: 1 << 20, permissions: Permissions::ReadWrite, mappable: false };
    assert_eq!(
        SampleCollector::new(config(OperationKind::Read, AccessPath::Mapped, 64, 1), fixed).err(),
        Some(BenchError::Operation { offset: 0, size: 16384, cause: Cause::NotMappable })
    );
    assert!(SampleCollector::new(config(OperationKind::Read, AccessPath::Bulk, 64, 1), fixed).is_ok());
}

#[test]
fn failed_repetition_empties_the_sample_set() {
    let cfg = config(OperationKind::Write, AccessPath::ByteAtATime, 256, 100);
    let mut c = SampleCollector::new(cfg, bar()).unwrap();
    for _ in 0..42 {
        assert_eq!(c.advance(Event::Completed { elapsed: 900 }), Ok(()));
    }
    assert_eq!(c.samples().len(), 42);
    let pending = expect_access(c.next_step());
    assert_eq!(pending.repetition, 42);
    assert_eq!(pending.offset, (42 * 256) % (16384 - 256));
    assert_eq!(pending.pattern, Some(0xAA));
    assert_eq!(c.advance(Event::Failed(Cause::DeviceRemoved)), Ok(()));
    assert_eq!(c.samples().len(), 0);
    assert!(c.is_finished());
    assert_eq!(c.next_step(), Step::Finish);
    let error = BenchError::Operation { offset: pending.offset, size: 256, cause: Cause::DeviceRemoved };
    assert_eq!(c.failure(), Some(error));
    assert_eq!(c.finish(), Err(error));
    // nothing is accepted after the end
    assert_eq!(c.advance(Event::Completed { elapsed: 1 }), Err(BenchError::Precondition));
    assert_eq!(c.samples().len(), 0);
    assert_eq!(c.finish(), Err(error));
}

#[test]
fn failure_of_the_first_repetition() {
    let cfg = config(OperationKind::Read, AccessPath::Bulk, 64, 3);
    let mut c = SampleCollector::new(cfg, bar()).unwrap();
    assert_eq!(c.advance(Event::Failed(Cause::Io)), Ok(()));
    assert_eq!(c.finish(), Err(BenchError::Operation { offset: 0, size: 64, cause: Cause::Io }));
    assert_eq!(c.samples().len(), 0);
}

#[test]
fn unfinished_run_has_no_result() {
    let cfg = config(OperationKind::Read, AccessPath::Bulk, 64, 3);
    let mut c = SampleCollector::new(cfg, bar()).unwrap();
    assert_eq!(c.finish(), Err(BenchError::Precondition));
    c.advance(Event::Completed { elapsed: 5 }).unwrap();
    c.advance(Event::Completed { elapsed: 6 }).unwrap();
    assert_eq!(c.finish(), Err(BenchError::Precondition));
    assert!(!c.is_finished());
    c.advance(Event::Completed { elapsed: 7 }).unwrap();
    let r = c.finish().unwrap();
    assert_eq!((r.min_time, r.avg_time, r.max_time), (5, 6, 7));
    assert_eq!(c.samples(), &vec![5, 6, 7]);
}

#[test]
fn run_of_no_repetitions_has_nothing_to_summarise() {
    let cfg = config(OperationKind::Read, AccessPath::Bulk, 64, 0);
    let c = SampleCollector::new(cfg, bar()).unwrap();
    assert_eq!(c.next_step(), Step::Finish);
    assert_eq!(c.finish(), Err(BenchError::Precondition));
}

#[test]
fn events_that_do_not_answer_the_step_change_nothing() {
    let cfg = config(OperationKind::Read, AccessPath::Bulk, 64, 2);
    let mut c = SampleCollector::new(cfg, bar()).unwrap();
    assert_eq!(c.advance(Event::Mapped), Err(BenchError::Precondition));
    assert_eq!(c.advance(Event::Unmapped), Err(BenchError::Precondition));
    assert_eq!(c.phase(), Phase::Sampling);
    assert_eq!(c.samples().len(), 0);
    assert_eq!(expect_access(c.next_step()).repetition, 0);
    let mapped = config(OperationKind::Read, AccessPath::Mapped, 64, 2);
    let mut m = SampleCollector::new(mapped, bar()).unwrap();
    assert_eq!(m.advance(Event::Completed { elapsed: 1 }), Err(BenchError::Precondition));
    assert_eq!(m.advance(Event::Unmapped), Err(BenchError::Precondition));
    assert_eq!(m.phase(), Phase::Mapping);
}

#[test]
fn mapping_brackets_the_repetitions() {
    let cfg = config(OperationKind::ReadWrite, AccessPath::Mapped, 4096, 3);
    let mut c = SampleCollector::new(cfg, bar()).unwrap();
    assert_eq!(
        c.next_step(),
        Step::MapWindow { offset: 0, length: 16384, permissions: Permissions::ReadWrite }
    );
    c.advance(Event::Mapped).unwrap();
    for i in 0..3u32 {
        let a = expect_access(c.next_step());
        assert_eq!(a.repetition, i);
        assert_eq!(a.path, AccessPath::Mapped);
        assert_eq!(a.pattern, Some(0x55));
        assert_eq!(a.offset, (i as u64 * 4096) % 12288);
        c.advance(Event::Completed { elapsed: 10 + i as u64 }).unwrap();
    }
    assert_eq!(c.next_step(), Step::UnmapWindow);
    assert_eq!(c.finish(), Err(BenchError::Precondition));
    c.advance(Event::Unmapped).unwrap();
    assert_eq!(c.next_step(), Step::Finish);
    let r = c.finish().unwrap();
    assert_eq!(r.total_bytes, 2 * 4096 * 3);
    assert_eq!(r.total_time, 33);
}

#[test]
fn mapping_is_released_after_a_failed_repetition() {
    let cfg = config(OperationKind::Read, AccessPath::Mapped, 64, 5);
    let mut c = SampleCollector::new(cfg, bar()).unwrap();
    c.advance(Event::Mapped).unwrap();
    c.advance(Event::Completed { elapsed: 3 }).unwrap();
    c.advance(Event::Failed(Cause::OutOfBounds)).unwrap();
    assert_eq!(c.samples().len(), 0);
    assert_eq!(c.next_step(), Step::UnmapWindow);
    c.advance(Event::Unmapped).unwrap();
    assert_eq!(
        c.finish(),
        Err(BenchError::Operation { offset: 64, size: 64, cause: Cause::OutOfBounds })
    );
}

#[test]
fn failed_mapping_ends_the_run() {
    let cfg = config(OperationKind::Read, AccessPath::Mapped, 64, 5);
    let mut c = SampleCollector::new(cfg, bar()).unwrap();
    c.advance(Event::Failed(Cause::PermissionDenied)).unwrap();
    assert_eq!(c.next_step(), Step::Finish);
    assert_eq!(
        c.finish(),
        Err(BenchError::Operation { offset: 0, size: 16384, cause: Cause::PermissionDenied })
    );
}

#[test]
fn mapped_run_of_no_repetitions_still_unmaps() {
    let cfg = config(OperationKind::Read, AccessPath::Mapped, 64, 0);
    let mut c = SampleCollector::new(cfg, bar()).unwrap();
    assert!(matches!(c.next_step(), Step::MapWindow { .. }));
    c.advance(Event::Mapped).unwrap();
    assert_eq!(c.next_step(), Step::UnmapWindow);
    c.advance(Event::Unmapped).unwrap();
    assert_eq!(c.finish(), Err(BenchError::Precondition));
}

#[test]
fn map_permissions_follow_the_operation() {
    for (operation, expected) in [
        (OperationKind::Read, Permissions::ReadOnly),
        (OperationKind::Write, Permissions::WriteOnly),
        (OperationKind::ReadWrite, Permissions::ReadWrite),
    ] {
        let c = SampleCollector::new(config(operation, AccessPath::Mapped, 64, 1), bar()).unwrap();
        assert_eq!(c.next_step(), Step::MapWindow { offset: 0, length: 16384, permissions: expected });
    }
}

#[test]
fn long_runs_mark_every_tenth() {
    let cfg = config(OperationKind::Read, AccessPath::ByteAtATime, 1, 10000);
    let mut c = SampleCollector::new(cfg, bar()).unwrap();
    assert!(c.shows_progress());
    let mut marked = Vec::new();
    for i in 0..10000u32 {
        let a = expect_access(c.next_step());
        if a.report_progress {
            marked.push(i);
        }
        c.advance(Event::Completed { elapsed: 1 }).unwrap();
    }
    assert_eq!(marked, vec![0, 1000, 2000, 3000, 4000, 5000, 6000, 7000, 8000, 9000]);
}

#[test]
fn progress_marks_never_exceed_eleven() {
    for n in [1001u32, 1009, 1099, 2000, 5000] {
        let cfg = config(OperationKind::Read, AccessPath::ByteAtATime, 1, n);
        let mut c = SampleCollector::new(cfg, bar()).unwrap();
        let mut marks = 0;
        for _ in 0..n {
            if expect_access(c.next_step()).report_progress {
                marks += 1;
            }
            c.advance(Event::Completed { elapsed: 1 }).unwrap();
        }
        assert!(marks >= 10 && marks <= 11, "{} marks for {} repetitions", marks, n);
    }
    let short = config(OperationKind::Read, AccessPath::ByteAtATime, 1, 1000);
    let c = SampleCollector::new(short, bar()).unwrap();
    assert!(!c.shows_progress());
    assert!(!expect_access(c.next_step()).report_progress);
}

#[test]
fn fixed_strategy_always_targets_offset_zero() {
    let cfg = BenchConfig {
        operation: OperationKind::Read,
        access_path: AccessPath::Bulk,
        strategy: OffsetStrategy::Fixed,
        transaction_size: 128,
        iterations: 4,
        window_size: 4096,
    };
    let mut c = SampleCollector::new(cfg, bar()).unwrap();
    for _ in 0..4 {
        assert_eq!(expect_access(c.next_step()).offset, 0);
        c.advance(Event::Completed { elapsed: 2 }).unwrap();
    }
    assert_eq!(c.config(), cfg);
    assert!(cfg.is_valid());
}

#[test]
fn durations_beyond_a_sample_are_cut_to_the_largest() {
    assert_eq!(Event::completed(0), Event::Completed { elapsed: 0 });
    assert_eq!(Event::completed(1_500), Event::Completed { elapsed: 1_500 });
    assert_eq!(Event::completed(u64::MAX as u128), Event::Completed { elapsed: u64::MAX });
    assert_eq!(Event::completed(u64::MAX as u128 + 1), Event::Completed { elapsed: u64::MAX });
    assert_eq!(Event::completed(u128::MAX), Event::Completed { elapsed: u64::MAX });
}

#[test]
fn run_carries_every_step_to_the_callback() {
    let cfg = config(OperationKind::ReadWrite, AccessPath::Mapped, 2048, 4);
    let seen = std::cell::RefCell::new(Vec::new());
    let result = SampleCollector::new(cfg, bar())
        .unwrap()
        .run(&|step| {
            seen.borrow_mut().push(step);
            match step {
                Step::MapWindow { .. } => Event::Mapped,
                Step::Access(a) => Event::Completed { elapsed: 100 + a.repetition as u64 },
                Step::UnmapWindow => Event::Unmapped,
                Step::Finish => unreachable!(),
            }
        })
        .unwrap();
    let seen = seen.into_inner();
    assert_eq!(seen.len(), 6);
    assert_eq!(seen[0], Step::MapWindow { offset: 0, length: 16384, permissions: Permissions::ReadWrite });
    let offsets: Vec<u64> = seen[1..5].iter().map(|s| expect_access(*s).offset).collect();
    assert_eq!(offsets, vec![0, 2048, 4096, 6144]);
    assert_eq!(seen[5], Step::UnmapWindow);
    assert_eq!((result.min_time, result.avg_time, result.max_time), (100, 101, 103));
    assert_eq!(result.total_bytes, 2 * 2048 * 4);
}

#[test]
fn run_stops_asking_after_a_failure() {
    let cfg = config(OperationKind::Read, AccessPath::Bulk, 512, 1000);
    let calls = std::cell::Cell::new(0u32);
    let outcome = SampleCollector::new(cfg, bar()).unwrap().run(&|step| {
        calls.set(calls.get() + 1);
        match step {
            Step::Access(a) if a.repetition == 9 => Event::Failed(Cause::Io),
            Step::Access(_) => Event::Completed { elapsed: 1 },
            _ => unreachable!(),
        }
    });
    assert_eq!(calls.get(), 10);
    assert_eq!(
        outcome,
        Err(BenchError::Operation { offset: (9 * 512) % (16384 - 512), size: 512, cause: Cause::Io })
    );
}

#[test]
fn run_ends_on_an_answer_that_does_not_fit() {
    let cfg = config(OperationKind::Read, AccessPath::Bulk, 512, 3);
    let calls = std::cell::Cell::new(0u32);
    let outcome = SampleCollector::new(cfg, bar()).unwrap().run(&|_| {
        calls.set(calls.get() + 1);
        Event::Unmapped
    });
    assert_eq!(calls.get(), 1);
    assert_eq!(outcome, Err(BenchError::Precondition));
}

#[test]
fn run_of_no_repetitions_asks_for_nothing() {
    let cfg = config(OperationKind::Read, AccessPath::Bulk, 512, 0);
    let outcome = SampleCollector::new(cfg, bar()).unwrap().run(&|_| unreachable!());
    assert_eq!(outcome, Err(BenchError::Precondition));
}
