use garden_esp::sensor::{SensorAction, SensorEvent, SensorPhase, SensorTask, RESET_RETRY_MS};

fn ready_task() -> SensorTask {
    let (mut task, first) = SensorTask::new();
    assert_eq!(first, SensorAction::ResetBus);
    assert_eq!(task.step(SensorEvent::ResetDone), SensorAction::SearchDevice);
    assert_eq!(task.step(SensorEvent::DeviceFound), SensorAction::CheckFamily);
    assert_eq!(task.step(SensorEvent::SensorReady), SensorAction::StartConversion);
    task
}

#[test]
fn failed_reset_pauses_one_second() {
    let (mut task, _) = SensorTask::new();
    assert_eq!(task.phase(), SensorPhase::Resetting);
    assert_eq!(task.step(SensorEvent::ResetFailed), SensorAction::Sleep(RESET_RETRY_MS));
    assert_eq!(RESET_RETRY_MS, 1000);
    assert_eq!(task.step(SensorEvent::TimerElapsed), SensorAction::ResetBus);
}

#[test]
fn search_problems_reset_again_at_once() {
    let (mut task, _) = SensorTask::new();
    task.step(SensorEvent::ResetDone);
    assert_eq!(task.step(SensorEvent::SearchFailed), SensorAction::ResetBus);
    task.step(SensorEvent::ResetDone);
    assert_eq!(task.step(SensorEvent::NoDevice), SensorAction::ResetBus);
    task.step(SensorEvent::ResetDone);
    task.step(SensorEvent::DeviceFound);
    assert_eq!(task.step(SensorEvent::NotDs18b20), SensorAction::ResetBus);
    assert_eq!(task.phase(), SensorPhase::Resetting);
}

#[test]
fn measurement_cycle_reports_the_average() {
    let mut task = ready_task();
    assert_eq!(task.step(SensorEvent::ConversionStarted(750)), SensorAction::Sleep(750));
    assert_eq!(task.step(SensorEvent::TimerElapsed), SensorAction::ReadScratchpad);
    // 25.0625 degrees
    assert_eq!(task.step(SensorEvent::RawReading(0x0191)), SensorAction::Report(2506));
    assert_eq!(task.phase(), SensorPhase::Reporting);
    assert_eq!(task.step(SensorEvent::Reported), SensorAction::StartConversion);
    task.step(SensorEvent::ConversionStarted(750));
    task.step(SensorEvent::TimerElapsed);
    // 25.5 degrees: (2506 + 2550) / 2 = 2528
    assert_eq!(task.step(SensorEvent::RawReading(0x0198)), SensorAction::Report(2528));
}

#[test]
fn failures_while_measuring_retry_the_conversion() {
    let mut task = ready_task();
    assert_eq!(task.step(SensorEvent::ConversionFailed), SensorAction::StartConversion);
    task.step(SensorEvent::ConversionStarted(94));
    task.step(SensorEvent::TimerElapsed);
    assert_eq!(task.step(SensorEvent::ReadFailed), SensorAction::StartConversion);
    assert_eq!(task.phase(), SensorPhase::Measuring);
}

#[test]
fn spike_reading_is_skipped() {
    let mut task = ready_task();
    task.step(SensorEvent::ConversionStarted(750));
    task.step(SensorEvent::TimerElapsed);
    // 20 degrees
    assert_eq!(task.step(SensorEvent::RawReading(0x0140)), SensorAction::Report(2000));
    task.step(SensorEvent::Reported);
    task.step(SensorEvent::ConversionStarted(750));
    task.step(SensorEvent::TimerElapsed);
    // 85 degrees, the DS18B20 power-on value: a spike
    assert_eq!(task.step(SensorEvent::RawReading(0x0550)), SensorAction::StartConversion);
    task.step(SensorEvent::ConversionStarted(750));
    task.step(SensorEvent::TimerElapsed);
    // 21 degrees: the spike left no trace, (2000 + 2100) / 2
    assert_eq!(task.step(SensorEvent::RawReading(0x0150)), SensorAction::Report(2050));
}
