use disk_eraser::disk::{DiskInfo, MediaType, Origin, Transport};
use disk_eraser::erase::{
    capacity_from_output, ChainStep, Command, EraseError, EraseTask, Event, Method, Pattern,
    Status, BLOCK_SIZE,
};

fn disk(path: &str, media: MediaType, transport: Transport) -> DiskInfo {
    DiskInfo {
        device_name: path.to_string(),
        model: "m".to_string(),
        device_type: media,
        transport,
        origin: Origin::Detected,
    }
}

fn ok() -> Event {
    Event::Completed { success: true }
}

fn failed() -> Event {
    Event::Completed { success: false }
}

#[test]
fn unknown_media_is_never_erased() {
    let mut task = EraseTask::for_disk(&disk("/dev/sdx", MediaType::Unknown, Transport::Sata));
    assert_eq!(task.status(), Status::Failed { error: EraseError::UnknownMediaType });
    for ev in [Event::Start, ok(), Event::Capacity { bytes: 100 }, failed()] {
        assert_eq!(task.advance(ev, false), Command::Stop);
    }
    assert_eq!(task.outcome(), Err(EraseError::UnknownMediaType));
}

#[test]
fn hdd_passes_run_random_zero_random() {
    let mut task = EraseTask::for_disk(&disk("/dev/sda", MediaType::Hdd, Transport::Sata));
    assert_eq!(task.method, Method::Overwrite);
    assert_eq!(task.status(), Status::Pending);
    let bytes = 2 * BLOCK_SIZE + 5;
    let mut patterns = Vec::new();
    let mut cmd = task.advance(Event::Start, false);
    assert_eq!(task.status(), Status::InProgress);
    loop {
        match cmd {
            Command::QueryCapacity => cmd = task.advance(Event::Capacity { bytes }, false),
            Command::Overwrite { pattern, block_size, block_count, tail_bytes } => {
                assert_eq!(block_size, 4194304);
                assert_eq!(block_count, 2);
                assert_eq!(tail_bytes, 5);
                patterns.push(pattern);
                cmd = task.advance(ok(), false);
            }
            Command::Stop => break,
            other => panic!("unexpected command {:?}", other),
        }
    }
    assert_eq!(patterns, vec![Pattern::Random, Pattern::Zero, Pattern::Random]);
    assert_eq!(task.status(), Status::Succeeded);
    assert_eq!(task.outcome(), Ok(()));
}

#[test]
fn hdd_failed_pass_stops_later_passes() {
    let mut task = EraseTask::for_disk(&disk("/dev/sda", MediaType::Hdd, Transport::Sata));
    assert_eq!(task.advance(Event::Start, false), Command::QueryCapacity);
    assert!(matches!(
        task.advance(Event::Capacity { bytes: 1000 }, false),
        Command::Overwrite { pattern: Pattern::Random, block_count: 0, tail_bytes: 1000, .. }
    ));
    assert_eq!(task.advance(ok(), false), Command::QueryCapacity);
    assert!(matches!(
        task.advance(Event::Capacity { bytes: 1000 }, false),
        Command::Overwrite { pattern: Pattern::Zero, .. }
    ));
    assert_eq!(task.advance(failed(), false), Command::Stop);
    assert_eq!(task.outcome(), Err(EraseError::PassFailed { pass: 1 }));
    assert_eq!(task.advance(ok(), false), Command::Stop);
    assert_eq!(task.advance(Event::Capacity { bytes: 1000 }, false), Command::Stop);
    assert_eq!(task.outcome(), Err(EraseError::PassFailed { pass: 1 }));
}

#[test]
fn hdd_zero_capacity_fails_before_writing() {
    let mut task = EraseTask::for_disk(&disk("/dev/sda", MediaType::Hdd, Transport::Usb));
    task.advance(Event::Start, false);
    assert_eq!(task.advance(Event::Capacity { bytes: 0 }, false), Command::Stop);
    assert_eq!(task.outcome(), Err(EraseError::CapacityQueryFailed { pass: 0 }));
}

#[test]
fn sata_password_failure_stops_chain() {
    let mut task = EraseTask::for_disk(&disk("/dev/sda", MediaType::Ssd, Transport::Sata));
    assert_eq!(task.advance(Event::Start, false), Command::SetPassword);
    assert_eq!(task.advance(failed(), false), Command::Stop);
    assert_eq!(
        task.outcome(),
        Err(EraseError::ChainStepFailed { step: ChainStep::SetPassword })
    );
    assert_eq!(task.advance(ok(), false), Command::Stop);
}

#[test]
fn sata_enhanced_success_skips_standard() {
    let mut task = EraseTask::for_disk(&disk("/dev/sda", MediaType::Ssd, Transport::Sata));
    assert_eq!(task.advance(Event::Start, false), Command::SetPassword);
    assert_eq!(task.advance(ok(), false), Command::EnhancedErase);
    assert_eq!(task.advance(ok(), false), Command::Stop);
    assert_eq!(task.outcome(), Ok(()));
}

#[test]
fn sata_enhanced_failure_falls_back_to_standard() {
    let mut task = EraseTask::for_disk(&disk("/dev/sda", MediaType::Ssd, Transport::Sata));
    task.advance(Event::Start, false);
    task.advance(ok(), false);
    assert_eq!(task.advance(failed(), false), Command::StandardErase);
    assert_eq!(task.advance(failed(), false), Command::Stop);
    assert_eq!(
        task.outcome(),
        Err(EraseError::ChainStepFailed { step: ChainStep::StandardErase })
    );
}

#[test]
fn nvme_uses_one_secure_format() {
    let mut task = EraseTask::for_disk(&disk("/dev/nvme0n1", MediaType::Ssd, Transport::Nvme));
    assert_eq!(task.advance(Event::Start, false), Command::SecureFormat);
    assert_eq!(task.advance(failed(), false), Command::Stop);
    assert_eq!(
        task.outcome(),
        Err(EraseError::ChainStepFailed { step: ChainStep::SecureFormat })
    );
}

#[test]
fn usb_ssd_gets_zero_fill() {
    let mut task = EraseTask::for_disk(&disk("/dev/sdc", MediaType::Ssd, Transport::Usb));
    assert_eq!(task.method, Method::ZeroFill);
    assert_eq!(task.advance(Event::Start, false), Command::QueryCapacity);
    assert_eq!(
        task.advance(Event::Capacity { bytes: BLOCK_SIZE }, false),
        Command::Overwrite { pattern: Pattern::Zero, block_size: BLOCK_SIZE, block_count: 1, tail_bytes: 0 }
    );
    assert_eq!(task.advance(ok(), false), Command::Stop);
    assert_eq!(task.outcome(), Ok(()));
}

#[test]
fn zero_fill_failure_names_its_step() {
    let mut task = EraseTask::for_disk(&disk("/dev/sdc", MediaType::Ssd, Transport::Unknown));
    task.advance(Event::Start, false);
    task.advance(Event::Capacity { bytes: 10 }, false);
    assert_eq!(task.advance(failed(), false), Command::Stop);
    assert_eq!(task.outcome(), Err(EraseError::ChainStepFailed { step: ChainStep::ZeroFill }));
}

#[test]
fn cancel_between_passes_stops_erasure() {
    let mut task = EraseTask::for_disk(&disk("/dev/sda", MediaType::Hdd, Transport::Sata));
    task.advance(Event::Start, false);
    task.advance(Event::Capacity { bytes: 10 }, false);
    assert_eq!(task.advance(ok(), true), Command::Stop);
    assert_eq!(task.outcome(), Err(EraseError::Cancelled { password_left_set: false }));
}

#[test]
fn cancel_before_start_does_nothing() {
    let mut task = EraseTask::for_disk(&disk("/dev/sda", MediaType::Ssd, Transport::Sata));
    assert_eq!(task.advance(Event::Start, true), Command::Stop);
    assert_eq!(task.outcome(), Err(EraseError::Cancelled { password_left_set: false }));
}

#[test]
fn unexpected_event_fails_awaited_step() {
    let mut task = EraseTask::for_disk(&disk("/dev/sda", MediaType::Ssd, Transport::Sata));
    task.advance(Event::Start, false);
    assert_eq!(task.advance(Event::Capacity { bytes: 5 }, false), Command::Stop);
    assert_eq!(
        task.outcome(),
        Err(EraseError::ChainStepFailed { step: ChainStep::SetPassword })
    );
}

#[test]
fn capacity_output_is_read() {
    assert_eq!(capacity_from_output("1000204886016\n"), 1000204886016);
    assert_eq!(capacity_from_output("  512 "), 512);
    assert_eq!(capacity_from_output(""), 0);
    assert_eq!(capacity_from_output("blockdev: cannot open"), 0);
    assert_eq!(capacity_from_output("18446744073709551616"), 0);
}

#[test]
fn cancel_after_password_reports_password_left_set() {
    let mut task = EraseTask::for_disk(&disk("/dev/sda", MediaType::Ssd, Transport::Sata));
    assert_eq!(task.advance(Event::Start, false), Command::SetPassword);
    assert_eq!(task.advance(ok(), true), Command::Stop);
    assert_eq!(task.outcome(), Err(EraseError::Cancelled { password_left_set: true }));
}

#[test]
fn cancel_after_failed_enhanced_erase_reports_password_left_set() {
    let mut task = EraseTask::for_disk(&disk("/dev/sda", MediaType::Ssd, Transport::Sata));
    task.advance(Event::Start, false);
    task.advance(ok(), false);
    assert_eq!(task.advance(failed(), true), Command::Stop);
    assert_eq!(task.outcome(), Err(EraseError::Cancelled { password_left_set: true }));
}

#[test]
fn unfinished_chain_outcome_reports_password_left_set() {
    let mut task = EraseTask::for_disk(&disk("/dev/sda", MediaType::Ssd, Transport::Sata));
    task.advance(Event::Start, false);
    task.advance(ok(), false);
    assert_eq!(task.outcome(), Err(EraseError::Cancelled { password_left_set: true }));
}
