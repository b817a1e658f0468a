use disk_eraser::classify::get_dummy_disks;
use disk_eraser::disk::{DiskInfo, MediaType, Origin, Transport};
use disk_eraser::erase::{ChainStep, Command, EraseError, EraseTask, Event, Method};
use disk_eraser::report::{build_report, plan_erasure};

fn disk(path: &str, media: MediaType, transport: Transport) -> DiskInfo {
    DiskInfo {
        device_name: path.to_string(),
        model: "m".to_string(),
        device_type: media,
        transport,
        origin: Origin::Detected,
    }
}

fn run(task: &mut EraseTask, succeed: bool) -> Result<(), EraseError> {
    let mut cmd = task.advance(Event::Start, false);
    while cmd != Command::Stop {
        let ev = match cmd {
            Command::QueryCapacity => Event::Capacity { bytes: 4096 },
            _ => Event::Completed { success: succeed },
        };
        cmd = task.advance(ev, false);
    }
    task.outcome()
}

fn run_all(targets: &Vec<String>, disks: &Vec<DiskInfo>, failing: &str) -> Vec<Result<(), EraseError>> {
    plan_erasure(targets, disks)
        .into_iter()
        .zip(targets.iter())
        .map(|(plan, path)| match plan {
            Ok(mut task) => run(&mut task, path != failing),
            Err(e) => Err(e),
        })
        .collect()
}

#[test]
fn scenario_missing_device_fails_alone() {
    let disks = vec![disk("/dev/sda", MediaType::Hdd, Transport::Sata)];
    let targets = vec!["/dev/sda".to_string(), "/dev/sdb".to_string()];
    let plans = plan_erasure(&targets, &disks);
    assert_eq!(plans.len(), 2);
    assert_eq!(plans[0].unwrap().method, Method::Overwrite);
    assert_eq!(plans[1], Err(EraseError::DeviceNotFound));
    let results = run_all(&targets, &disks, "");
    let report = build_report(&targets, &results);
    assert_eq!(report.entries.len(), 2);
    assert_eq!(report.entries[0].path, "/dev/sda");
    assert_eq!(report.entries[0].result, Ok(()));
    assert_eq!(report.entries[1].path, "/dev/sdb");
    assert_eq!(report.entries[1].result, Err(EraseError::DeviceNotFound));
    assert!(!report.is_success());
    let failures = report.failures();
    assert_eq!(failures.len(), 1);
    assert_eq!(failures[0].path, "/dev/sdb");
}

#[test]
fn one_failing_device_leaves_others_alone() {
    let disks = vec![
        disk("/dev/sda", MediaType::Hdd, Transport::Sata),
        disk("/dev/sdb", MediaType::Ssd, Transport::Sata),
        disk("/dev/nvme0n1", MediaType::Ssd, Transport::Nvme),
    ];
    let targets: Vec<String> = disks.iter().map(|d| d.device_name.clone()).collect();
    let all_good = build_report(&targets, &run_all(&targets, &disks, ""));
    assert!(all_good.is_success());
    assert!(all_good.failures().is_empty());
    let one_bad = build_report(&targets, &run_all(&targets, &disks, "/dev/sdb"));
    assert_eq!(one_bad.entries.len(), 3);
    assert_eq!(one_bad.entries[0].result, Ok(()));
    assert_eq!(
        one_bad.entries[1].result,
        Err(EraseError::ChainStepFailed { step: ChainStep::SetPassword })
    );
    assert_eq!(one_bad.entries[2].result, Ok(()));
    assert!(!one_bad.is_success());
}

#[test]
fn unknown_media_target_is_refused() {
    let disks = vec![disk("/dev/sdz", MediaType::Unknown, Transport::Usb)];
    let targets = vec!["/dev/sdz".to_string()];
    let results = run_all(&targets, &disks, "");
    assert_eq!(results, vec![Err(EraseError::UnknownMediaType)]);
}

#[test]
fn first_descriptor_with_path_is_used() {
    let disks = vec![
        disk("/dev/sda", MediaType::Ssd, Transport::Nvme),
        disk("/dev/sda", MediaType::Hdd, Transport::Sata),
    ];
    let plans = plan_erasure(&vec!["/dev/sda".to_string()], &disks);
    assert_eq!(plans[0].unwrap().method, Method::NvmeFormat);
}

#[test]
fn empty_request_gives_empty_success() {
    let report = build_report(&Vec::new(), &Vec::new());
    assert!(report.entries.is_empty());
    assert!(report.is_success());
}

#[test]
fn stand_in_disks_are_never_erased() {
    let disks = get_dummy_disks();
    let targets: Vec<String> = disks.iter().map(|d| d.device_name.clone()).collect();
    let plans = plan_erasure(&targets, &disks);
    assert_eq!(plans.len(), 3);
    assert!(plans.iter().all(|p| *p == Err(EraseError::DeviceNotFound)));
}
