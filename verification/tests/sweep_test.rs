use vfio_benchmark::config::{AccessPath, BenchConfig, OffsetStrategy, OperationKind};
use vfio_benchmark::collector::{Event, Step};
use vfio_benchmark::driver::VfioBenchmark;
use vfio_benchmark::error::{BenchError, Cause};
use vfio_benchmark::region::{Permissions, RegionInfo};
use vfio_benchmark::result::BenchmarkResult;
use vfio_benchmark::sweep::{
    choose_iterations, Banding, Failure, Sweep, SweepConfig, COMPARISON_VOLUME, COMPARISON_WINDOW,
    STANDARD_WINDOW,
};

fn bar() -> RegionInfo {
    RegionInfo { length: 1 << 20, permissions: Permissions::ReadWrite, mappable: true }
}

#[test]
fn standard_bands() {
    let pure = |size| choose_iterations(Banding::Standard, OperationKind::Read, size);
    assert_eq!(pure(1), 10000);
    assert_eq!(pure(16), 10000);
    assert_eq!(pure(17), 5000);
    assert_eq!(pure(64), 5000);
    assert_eq!(pure(65), 2000);
    assert_eq!(pure(256), 2000);
    assert_eq!(pure(257), 1000);
    assert_eq!(pure(1024), 1000);
    assert_eq!(pure(1025), 500);
    assert_eq!(pure(4096), 500);
    assert_eq!(pure(u64::MAX), 500);
    assert_eq!(choose_iterations(Banding::Standard, OperationKind::Write, 128), 2000);
}

#[test]
fn read_then_write_gets_half_the_repetitions() {
    let both = |size| choose_iterations(Banding::Standard, OperationKind::ReadWrite, size);
    assert_eq!(both(8), 5000);
    assert_eq!(both(64), 2500);
    assert_eq!(both(128), 1000);
    assert_eq!(both(1024), 500);
    assert_eq!(both(4096), 250);
    let target = Banding::ByteTarget { total_bytes: 1000 };
    assert_eq!(choose_iterations(target, OperationKind::Read, 3), 333);
    assert_eq!(choose_iterations(target, OperationKind::ReadWrite, 3), 166);
}

#[test]
fn byte_target_divides_the_volume() {
    let target = Banding::ByteTarget { total_bytes: COMPARISON_VOLUME };
    assert_eq!(COMPARISON_VOLUME, 16 << 20);
    assert_eq!(choose_iterations(target, OperationKind::Read, 128), 131072);
    assert_eq!(choose_iterations(target, OperationKind::Read, 4096), 4096);
    assert_eq!(choose_iterations(target, OperationKind::Write, 4), 4194304);
    assert_eq!(choose_iterations(target, OperationKind::Read, 1), 16777216);
    assert_eq!(choose_iterations(target, OperationKind::Read, 3), 5592405);
    assert_eq!(choose_iterations(target, OperationKind::Read, COMPARISON_VOLUME + 1), 0);
}

#[test]
fn byte_target_edges() {
    let huge = Banding::ByteTarget { total_bytes: u64::MAX };
    assert_eq!(choose_iterations(huge, OperationKind::Read, 1), u32::MAX);
    assert_eq!(choose_iterations(huge, OperationKind::Read, 1 << 32), u32::MAX);
    assert_eq!(choose_iterations(huge, OperationKind::Read, (1 << 32) + 1), u32::MAX);
    assert_eq!(choose_iterations(huge, OperationKind::Read, (1 << 32) + 2), u32::MAX - 1);
    assert_eq!(choose_iterations(huge, OperationKind::Read, 0), 0);
    assert_eq!(choose_iterations(huge, OperationKind::ReadWrite, 1), u32::MAX / 2);
}

#[test]
fn standard_sweep_configuration() {
    let c = SweepConfig::standard("/sys/bus/pci/devices/0000:22:00.0".to_string());
    assert_eq!(c.device_path, "/sys/bus/pci/devices/0000:22:00.0");
    assert_eq!(c.sizes, vec![1, 4, 8, 16, 32, 64, 128, 256, 512, 1024, 2048, 4096]);
    assert_eq!(c.banding, Banding::Standard);
    assert_eq!(c.access_path, AccessPath::ByteAtATime);
    assert_eq!(c.strategy, OffsetStrategy::Wraparound);
    assert_eq!(c.window_size, 16384);
    assert_eq!(STANDARD_WINDOW, 16 * 1024);
}

#[test]
fn comparison_sweep_configuration() {
    let c = SweepConfig::comparison("dev".to_string(), vec![128]);
    assert_eq!(c.device_path, "dev");
    assert_eq!(c.sizes, vec![128]);
    assert_eq!(c.banding, Banding::ByteTarget { total_bytes: 16 << 20 });
    assert_eq!(c.access_path, AccessPath::Bulk);
    assert_eq!(c.strategy, OffsetStrategy::Fixed);
    assert_eq!(c.window_size, COMPARISON_WINDOW);
    assert_eq!(COMPARISON_WINDOW, 4096);
}

#[test]
fn plan_runs_three_operations_per_size() {
    let c = SweepConfig::standard(String::new());
    let plan = c.plan();
    assert_eq!(plan.len(), 36);
    let expect = |operation, size, iterations| BenchConfig {
        operation,
        access_path: AccessPath::ByteAtATime,
        strategy: OffsetStrategy::Wraparound,
        transaction_size: size,
        iterations,
        window_size: 16384,
    };
    assert_eq!(plan[0], expect(OperationKind::Read, 1, 10000));
    assert_eq!(plan[1], expect(OperationKind::Write, 1, 10000));
    assert_eq!(plan[2], expect(OperationKind::ReadWrite, 1, 5000));
    assert_eq!(plan[3], expect(OperationKind::Read, 4, 10000));
    assert_eq!(plan[18], expect(OperationKind::Read, 128, 2000));
    assert_eq!(plan[19], expect(OperationKind::Write, 128, 2000));
    assert_eq!(plan[20], expect(OperationKind::ReadWrite, 128, 1000));
    assert_eq!(plan[33], expect(OperationKind::Read, 4096, 500));
    assert_eq!(plan[35], expect(OperationKind::ReadWrite, 4096, 250));
    assert_eq!(c.point(OperationKind::Write, 512), expect(OperationKind::Write, 512, 1000));
}

#[test]
fn plan_of_no_sizes_is_empty() {
    let c = SweepConfig::comparison(String::new(), Vec::new());
    assert!(c.plan().is_empty());
    let mut sweep = Sweep::new(c.plan());
    assert!(sweep.is_done());
    assert_eq!(sweep.current(), None);
    assert!(!sweep.record(Err(BenchError::Precondition)));
    assert!(sweep.failures().is_empty());
}

#[test]
fn failed_configuration_does_not_stop_the_sweep() {
    let c = SweepConfig::comparison(String::new(), vec![64, 128]);
    let plan = c.plan();
    assert_eq!(plan.len(), 6);
    let mut sweep = Sweep::new(plan.clone());
    let ok = |cfg: BenchConfig| {
        BenchmarkResult::new(cfg.operation, cfg.transaction_size, cfg.iterations, &[100, 200]).unwrap()
    };
    let broken = BenchError::Operation { offset: 0, size: 64, cause: Cause::Io };
    assert_eq!(sweep.current(), Some(plan[0]));
    assert!(sweep.record(Ok(ok(plan[0]))));
    assert_eq!(sweep.current(), Some(plan[1]));
    assert!(sweep.record(Err(broken)));
    assert_eq!(sweep.current(), Some(plan[2]));
    assert!(sweep.record(Ok(ok(plan[2]))));
    assert!(sweep.record(Err(BenchError::Precondition)));
    assert!(sweep.record(Ok(ok(plan[4]))));
    assert!(!sweep.is_done());
    assert!(sweep.record(Ok(ok(plan[5]))));
    assert!(sweep.is_done());
    assert_eq!(sweep.current(), None);
    assert_eq!(sweep.results(), &vec![ok(plan[0]), ok(plan[2]), ok(plan[4]), ok(plan[5])]);
    assert_eq!(
        sweep.failures(),
        &vec![
            Failure { config: plan[1], error: broken },
            Failure { config: plan[3], error: BenchError::Precondition },
        ]
    );
    assert!(!sweep.record(Ok(ok(plan[0]))));
    assert_eq!(sweep.results().len() + sweep.failures().len(), plan.len());
}

#[test]
fn benchmark_needs_a_region_that_holds_the_window() {
    let config = SweepConfig::standard(String::new());
    assert_eq!(
        VfioBenchmark::new(None, config.clone()).err(),
        Some(BenchError::Acquisition(Cause::NoSuchRegion))
    );
    let short = RegionInfo { length: 8192, permissions: Permissions::ReadWrite, mappable: true };
    assert_eq!(
        VfioBenchmark::new(Some(short), config.clone()).err(),
        Some(BenchError::Acquisition(Cause::RegionTooSmall { actual: 8192, required: 16384 }))
    );
    let b = VfioBenchmark::new(Some(bar()), config).unwrap();
    assert_eq!(b.region, bar());
    assert_eq!(b.config.window_size, 16384);
}

#[test]
fn benchmark_starts_runs_in_its_window() {
    let b = VfioBenchmark::new(Some(bar()), SweepConfig::standard(String::new())).unwrap();
    let cfg = b.configure(OperationKind::Read, 128, 2000);
    assert_eq!(
        cfg,
        BenchConfig {
            operation: OperationKind::Read,
            access_path: AccessPath::ByteAtATime,
            strategy: OffsetStrategy::Wraparound,
            transaction_size: 128,
            iterations: 2000,
            window_size: 16384,
        }
    );
    let started = b.start(cfg).unwrap();
    assert_eq!(started.config(), cfg);
    assert_eq!(
        b.start(b.configure(OperationKind::Read, 16385, 1)).err(),
        Some(BenchError::Operation { offset: 0, size: 16385, cause: Cause::OutOfBounds })
    );
}

/// Answers every step as a device would that takes a nanosecond per byte.
fn steady(step: Step) -> Event {
    match step {
        Step::MapWindow { .. } => Event::Mapped,
        Step::Access(access) => Event::Completed { elapsed: access.size },
        Step::UnmapWindow => Event::Unmapped,
        Step::Finish => Event::Unmapped,
    }
}

#[test]
fn benchmark_measures_each_operation() {
    let b = VfioBenchmark::new(Some(bar()), SweepConfig::standard(String::new())).unwrap();
    let read = b.benchmark_read(128, 2000, &steady).unwrap();
    assert_eq!((read.operation, read.block_size, read.iterations), (OperationKind::Read, 128, 2000));
    assert_eq!((read.min_time, read.avg_time, read.max_time), (128, 128, 128));
    assert_eq!(read.total_time, 128 * 2000);
    assert_eq!(read.throughput(), Some(1_000_000_000));
    let write = b.benchmark_write(64, 5000, &steady).unwrap();
    assert_eq!((write.operation, write.block_size, write.iterations), (OperationKind::Write, 64, 5000));
    assert_eq!(write.total_bytes, 64 * 5000);
    let both = b.benchmark_read_write(4096, 250, &steady).unwrap();
    assert_eq!(both.operation, OperationKind::ReadWrite);
    assert_eq!(both.total_bytes, 2 * 4096 * 250);
    assert_eq!(both.throughput(), Some(2_000_000_000));
    let custom = b.measure(b.configure(OperationKind::Read, 1, 3), &steady).unwrap();
    assert_eq!(custom.total_time, 3);
}

#[test]
fn benchmark_refuses_what_cannot_run_before_any_step() {
    let b = VfioBenchmark::new(Some(bar()), SweepConfig::standard(String::new())).unwrap();
    let never = |_: Step| -> Event { panic!("no step may be taken") };
    assert_eq!(
        b.benchmark_read(16385, 500, &never),
        Err(BenchError::Operation { offset: 0, size: 16385, cause: Cause::OutOfBounds })
    );
    assert_eq!(b.benchmark_write(0, 1, &never), Err(BenchError::Precondition));
    let read_only = RegionInfo { length: 1 << 20, permissions: Permissions::ReadOnly, mappable: true };
    let r = VfioBenchmark::new(Some(read_only), SweepConfig::standard(String::new())).unwrap();
    assert_eq!(
        r.benchmark_read_write(64, 10, &never),
        Err(BenchError::Operation { offset: 0, size: 64, cause: Cause::PermissionDenied })
    );
}

#[test]
fn benchmark_reports_the_failed_access() {
    let b = VfioBenchmark::new(Some(bar()), SweepConfig::standard(String::new())).unwrap();
    let flaky = |step: Step| match step {
        Step::Access(a) if a.repetition == 3 => Event::Failed(Cause::DeviceRemoved),
        other => steady(other),
    };
    assert_eq!(
        b.benchmark_read(1024, 1000, &flaky),
        Err(BenchError::Operation { offset: 3 * 1024, size: 1024, cause: Cause::DeviceRemoved })
    );
}

#[test]
fn comprehensive_benchmark_sweeps_the_whole_plan() {
    let b = VfioBenchmark::new(Some(bar()), SweepConfig::standard(String::new())).unwrap();
    // every access of eight bytes fails, every other takes 50 ns
    let execute = |step: Step| match step {
        Step::Access(a) if a.size == 8 => Event::Failed(Cause::DeviceRemoved),
        Step::Access(_) => Event::Completed { elapsed: 50 },
        other => steady(other),
    };
    let report = b.run_comprehensive_benchmark(&execute);
    assert_eq!(report.results.len(), 33);
    assert_eq!(report.failures.len(), 3);
    assert!(report.failures.iter().all(|f| f.config.transaction_size == 8));
    assert!(report.failures.iter().all(|f| f.error
        == BenchError::Operation { offset: 0, size: 8, cause: Cause::DeviceRemoved }));
    let plan = b.config.plan();
    let ran: Vec<BenchConfig> = plan.iter().copied().filter(|c| c.transaction_size != 8).collect();
    for (result, config) in report.results.iter().zip(&ran) {
        assert_eq!(result.operation, config.operation);
        assert_eq!(result.block_size, config.transaction_size);
        assert_eq!(result.iterations, config.iterations);
        assert_eq!(result.total_time, 50 * config.iterations as u128);
    }
    // every repetition took 50 ns, so the largest block is ahead
    let best_read = report.results[report.read.best.unwrap()];
    assert_eq!((best_read.operation, best_read.block_size), (OperationKind::Read, 4096));
    let best_write = report.results[report.write.best.unwrap()];
    assert_eq!((best_write.operation, best_write.block_size), (OperationKind::Write, 4096));
    let best_both = report.results[report.read_write.best.unwrap()];
    assert_eq!((best_both.operation, best_both.block_size), (OperationKind::ReadWrite, 4096));
    assert_eq!(best_read.throughput(), Some(4096 * 1_000_000_000 / 50));
    assert_eq!(best_both.throughput(), Some(2 * 4096 * 1_000_000_000 / 50));
    let rates: Vec<u128> = report
        .results
        .iter()
        .filter(|r| r.operation == OperationKind::Read)
        .map(|r| r.throughput().unwrap())
        .collect();
    assert_eq!(rates.len(), 11);
    assert_eq!(report.read.mean_throughput, Some(rates.iter().sum::<u128>() / 11));
}

#[test]
fn sweep_can_be_taken_configuration_by_configuration() {
    let b = VfioBenchmark::new(Some(bar()), SweepConfig::standard(String::new())).unwrap();
    let mut sweep = b.sweep();
    let plan = b.config.plan();
    let mut seen = 0;
    while let Some(cfg) = sweep.current() {
        assert_eq!(cfg, plan[seen]);
        assert!(sweep.record(b.measure(cfg, &steady)));
        seen += 1;
    }
    assert_eq!(seen, 36);
    assert_eq!(sweep.results().len(), 36);
    assert!(sweep.failures().is_empty());
}

#[test]
fn report_of_an_empty_sweep_has_no_figures() {
    let report = Sweep::new(Vec::new()).into_report();
    assert!(report.results.is_empty());
    assert!(report.failures.is_empty());
    assert_eq!(report.read.best, None);
    assert_eq!(report.write.mean_throughput, None);
    assert_eq!(report.read_write.best, None);
}

#[test]
fn run_all_runs_every_configuration_in_plan_order() {
    let config = SweepConfig::comparison(String::new(), vec![64, 128, 256]);
    let plan = config.plan();
    let seen = std::cell::RefCell::new(Vec::new());
    let report = Sweep::new(plan.clone()).run_all(|cfg| {
        seen.borrow_mut().push(cfg);
        if cfg.operation == OperationKind::Write {
            Err(BenchError::Operation { offset: 0, size: cfg.transaction_size, cause: Cause::PermissionDenied })
        } else {
            BenchmarkResult::new(cfg.operation, cfg.transaction_size, cfg.iterations, &[1_000, 3_000])
        }
    });
    assert_eq!(seen.into_inner(), plan);
    assert_eq!(report.results.len(), 6);
    assert_eq!(report.failures.len(), 3);
    for (failure, size) in report.failures.iter().zip([64u64, 128, 256]) {
        assert_eq!(failure.config.operation, OperationKind::Write);
        assert_eq!(failure.config.transaction_size, size);
        assert_eq!(
            failure.error,
            BenchError::Operation { offset: 0, size, cause: Cause::PermissionDenied }
        );
    }
    assert_eq!(report.write.best, None);
    assert_eq!(report.write.mean_throughput, None);
    assert!(report.read.best.is_some());
    assert!(report.read_write.mean_throughput.is_some());
}

#[test]
fn run_all_takes_up_a_sweep_where_it_stands() {
    let config = SweepConfig::comparison(String::new(), vec![64]);
    let plan = config.plan();
    let mut sweep = Sweep::new(plan.clone());
    sweep.record(Err(BenchError::Precondition));
    let seen = std::cell::RefCell::new(Vec::new());
    let report = sweep.run_all(|cfg| {
        seen.borrow_mut().push(cfg);
        BenchmarkResult::new(cfg.operation, cfg.transaction_size, cfg.iterations, &[7])
    });
    assert_eq!(seen.into_inner(), plan[1..].to_vec());
    assert_eq!(report.results.len(), 2);
    assert_eq!(report.failures, vec![Failure { config: plan[0], error: BenchError::Precondition }]);
}
