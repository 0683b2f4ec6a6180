use std::time::{Duration, Instant};

use escvp21emulator::commands::{CommandError, CommandProcessor};

const WARMING_TIME: u64 = 2;
const COOLDOWN_TIME: u64 = 1;
const LAMP_HOURS_DEFAULT: &str = "100";

/// One second, in nanoseconds.
const SEC: u64 = 1_000_000_000;
/// An arbitrary starting instant for the tests that give the time.
const T0: u64 = 1_700_000_000 * SEC;

/// Lets `d` of wall-clock time pass.
fn wait(d: Duration) {
    let start = Instant::now();
    while start.elapsed() < d {
        std::hint::spin_loop();
    }
}

fn lamp_on_at(processor: &mut CommandProcessor) -> u64 {
    assert_eq!(processor.process_message_at("PWR ON", T0), Ok(None));
    T0 + WARMING_TIME * SEC + 1
}

#[test]
fn test_power_command() {
    let mut processor = CommandProcessor::new(WARMING_TIME, COOLDOWN_TIME);
    assert_eq!(processor.process_message("PWR ON").unwrap(), None);
    assert_eq!(processor.process_message("PWR?").unwrap(), Some("PWR=02".to_string()));
    wait(Duration::from_secs(WARMING_TIME));
    assert_eq!(processor.process_message("PWR?").unwrap(), Some("PWR=01".to_string()));
    assert_eq!(processor.process_message("PWR OFF").unwrap(), None);
    assert_eq!(processor.process_message("PWR?").unwrap(), Some("PWR=03".to_string()));
    wait(Duration::from_secs(COOLDOWN_TIME));
    assert_eq!(processor.process_message("PWR?").unwrap(), Some("PWR=00".to_string()));
}

#[test]
fn test_power_state_logic() {
    let mut processor = CommandProcessor::new(WARMING_TIME, COOLDOWN_TIME);
    assert_eq!(processor.process_message("SNO?").unwrap().is_some(), true);
    assert_eq!(processor.process_message("LAMP?"), Err(CommandError::InvalidPowerState));
    assert_eq!(processor.process_message("PWR ON").unwrap(), None);
    assert_eq!(processor.process_message("LAMP?"), Err(CommandError::InvalidPowerState));
    wait(Duration::from_secs(WARMING_TIME));
    assert_eq!(
        processor.process_message("LAMP?").unwrap(),
        Some(format!("LAMP={LAMP_HOURS_DEFAULT}"))
    );
}

#[test]
fn test_set_get() {
    let mut processor = CommandProcessor::new(WARMING_TIME, COOLDOWN_TIME);
    assert_eq!(processor.process_message("SNO?").unwrap().is_some(), true);
    assert_eq!(processor.process_message("SNO 1234567890"), Err(CommandError::InvalidCommand));
    assert_eq!(processor.process_message("PWR ON").unwrap(), None);
    wait(Duration::from_secs(WARMING_TIME));
    assert_eq!(processor.process_message("SNO?").unwrap(), Some("SNO=1234567890".to_string()));
    assert_eq!(processor.process_message("SNO 123456789"), Err(CommandError::InvalidCommand));
    assert_eq!(processor.process_message("KEY 01").unwrap(), None);
    assert_eq!(processor.process_message("KEY?"), Err(CommandError::InvalidCommand));
    assert_eq!(processor.process_message("AUTOHOME 01").unwrap(), None);
    assert_eq!(processor.process_message("AUTOHOME?").unwrap(), Some("AUTOHOME=01".to_string()));
}

#[test]
fn power_transitions_with_given_time() {
    let mut p = CommandProcessor::new(WARMING_TIME, COOLDOWN_TIME);
    assert_eq!(p.process_message_at("PWR?", T0), Ok(Some("PWR=00".to_string())));
    assert_eq!(p.process_message_at("PWR ON", T0), Ok(None));
    assert_eq!(p.process_message_at("PWR?", T0 + SEC), Ok(Some("PWR=02".to_string())));
    // Exactly the warm-up duration is not yet beyond it.
    assert_eq!(p.process_message_at("PWR?", T0 + 2 * SEC), Ok(Some("PWR=02".to_string())));
    assert_eq!(p.process_message_at("PWR?", T0 + 2 * SEC + 1), Ok(Some("PWR=01".to_string())));
    let off = T0 + 10 * SEC;
    assert_eq!(p.process_message_at("PWR OFF", off), Ok(None));
    assert_eq!(p.process_message_at("PWR?", off), Ok(Some("PWR=03".to_string())));
    assert_eq!(p.process_message_at("PWR?", off + SEC + 1), Ok(Some("PWR=00".to_string())));
}

#[test]
fn power_requests_ignored_in_transient_states() {
    let mut p = CommandProcessor::new(WARMING_TIME, COOLDOWN_TIME);
    // PWR OFF while off, and PWR ON while warming, change nothing.
    assert_eq!(p.process_message_at("PWR OFF", T0), Ok(None));
    assert_eq!(p.process_message_at("PWR?", T0), Ok(Some("PWR=00".to_string())));
    assert_eq!(p.process_message_at("PWR ON", T0), Ok(None));
    assert_eq!(p.process_message_at("PWR ON", T0 + SEC), Ok(None));
    // Had the second PWR ON restarted the warm-up, this would still be 02.
    assert_eq!(p.process_message_at("PWR?", T0 + 2 * SEC + 1), Ok(Some("PWR=01".to_string())));
    // PWR ON while cooling does not interrupt the cool-down.
    let off = T0 + 5 * SEC;
    assert_eq!(p.process_message_at("PWR OFF", off), Ok(None));
    assert_eq!(p.process_message_at("PWR ON", off), Ok(None));
    assert_eq!(p.process_message_at("PWR?", off), Ok(Some("PWR=03".to_string())));
    assert_eq!(p.process_message_at("PWR?", off + SEC + 1), Ok(Some("PWR=00".to_string())));
}

#[test]
fn power_set_with_other_value_is_refused() {
    let mut p = CommandProcessor::new(WARMING_TIME, COOLDOWN_TIME);
    assert_eq!(p.process_message_at("PWR STANDBY", T0), Err(CommandError::InvalidCommand));
    assert_eq!(p.process_message_at("PWR  ON", T0), Err(CommandError::InvalidCommand));
    assert_eq!(p.process_message_at("PWR?", T0), Ok(Some("PWR=00".to_string())));
}

#[test]
fn power_gated_access() {
    let mut p = CommandProcessor::new(WARMING_TIME, COOLDOWN_TIME);
    assert_eq!(p.process_message_at("SNO?", T0), Ok(Some("SNO=1234567890".to_string())));
    assert_eq!(p.process_message_at("ERR?", T0), Ok(Some("ERR=00".to_string())));
    assert_eq!(p.process_message_at("LAMP?", T0), Err(CommandError::InvalidPowerState));
    assert_eq!(p.process_message_at("VOL 10", T0), Err(CommandError::InvalidPowerState));
    let on = lamp_on_at(&mut p);
    assert_eq!(p.process_message_at("LAMP?", on), Ok(Some("LAMP=100".to_string())));
}

#[test]
fn read_only_rejection() {
    let mut p = CommandProcessor::new(WARMING_TIME, COOLDOWN_TIME);
    assert_eq!(p.process_message_at("SNO 1234567890", T0), Err(CommandError::InvalidCommand));
    let on = lamp_on_at(&mut p);
    assert_eq!(p.process_message_at("ONTIME 5", on), Err(CommandError::InvalidCommand));
}

#[test]
fn write_only_parameter() {
    let mut p = CommandProcessor::new(WARMING_TIME, COOLDOWN_TIME);
    let on = lamp_on_at(&mut p);
    assert_eq!(p.process_message_at("KEY 01", on), Ok(None));
    assert_eq!(p.process_message_at("KEY?", on), Err(CommandError::InvalidCommand));
    assert_eq!(p.process_message_at("KEY INIT", on), Ok(None));
    assert_eq!(p.process_message_at("KEY x", on), Err(CommandError::InvalidValue));
}

#[test]
fn validated_write() {
    let mut p = CommandProcessor::new(WARMING_TIME, COOLDOWN_TIME);
    let on = lamp_on_at(&mut p);
    assert_eq!(p.process_message_at("AUTOHOME 01", on), Ok(None));
    assert_eq!(p.process_message_at("AUTOHOME?", on), Ok(Some("AUTOHOME=01".to_string())));
    assert_eq!(p.process_message_at("AUTOHOME zz", on), Err(CommandError::InvalidValue));
    // The refused write left the value as it was.
    assert_eq!(p.process_message_at("AUTOHOME?", on), Ok(Some("AUTOHOME=01".to_string())));
}

#[test]
fn substring_match_validation() {
    let mut p = CommandProcessor::new(WARMING_TIME, COOLDOWN_TIME);
    let on = lamp_on_at(&mut p);
    assert_eq!(p.process_message_at("VOL 9", on), Ok(None));
    assert_eq!(p.process_message_at("VOL?", on), Ok(Some("VOL=9".to_string())));
    assert_eq!(p.process_message_at("VOL x", on), Err(CommandError::InvalidValue));
    // Unanchored: a digit anywhere in the value is enough.
    assert_eq!(p.process_message_at("VOL x7y", on), Ok(None));
    assert_eq!(p.process_message_at("VOL?", on), Ok(Some("VOL=x7y".to_string())));
}

#[test]
fn init_resets_to_default() {
    let mut p = CommandProcessor::new(WARMING_TIME, COOLDOWN_TIME);
    let on = lamp_on_at(&mut p);
    assert_eq!(p.process_message_at("AUTOHOME 42", on), Ok(None));
    assert_eq!(p.process_message_at("AUTOHOME?", on), Ok(Some("AUTOHOME=42".to_string())));
    assert_eq!(p.process_message_at("AUTOHOME INIT", on), Ok(None));
    assert_eq!(p.process_message_at("AUTOHOME?", on), Ok(Some("AUTOHOME=00".to_string())));
    // INIT that the pattern refuses is an invalid value, not a reset.
    assert_eq!(p.process_message_at("FREEZE ON", on), Ok(None));
    assert_eq!(p.process_message_at("FREEZE INIT", on), Err(CommandError::InvalidValue));
    assert_eq!(p.process_message_at("FREEZE?", on), Ok(Some("FREEZE=ON".to_string())));
}

#[test]
fn set_then_get_round_trip() {
    let mut p = CommandProcessor::new(WARMING_TIME, COOLDOWN_TIME);
    let on = lamp_on_at(&mut p);
    assert_eq!(p.process_message_at("IMGSHIFT -1 2", on), Ok(None));
    assert_eq!(p.process_message_at("IMGSHIFT?", on), Ok(Some("IMGSHIFT=-1 2".to_string())));
    assert_eq!(p.process_message_at("ZOOM 123", on), Ok(None));
    assert_eq!(p.process_message_at("ZOOM?", on), Ok(Some("ZOOM=123".to_string())));
    assert_eq!(p.process_message_at("MUTE OFF", on), Ok(None));
    assert_eq!(p.process_message_at("MUTE?", on), Ok(Some("MUTE=OFF".to_string())));
}

#[test]
fn initial_table_values() {
    let mut p = CommandProcessor::new(WARMING_TIME, COOLDOWN_TIME);
    let on = lamp_on_at(&mut p);
    let expected = [
        ("SNO", "1234567890"),
        ("LAMP", "100"),
        ("AUTOHOME", "00"),
        ("ERR", "00"),
        ("FREEZE", "OFF"),
        ("FASTBOOT", "01"),
        ("SIGNAL", "01"),
        ("ONTIME", "110"),
        ("SOURCE", "00"),
        ("MUTE", "0000"),
        ("VOL", "90"),
        ("ZOOM", "0"),
        ("HREVERSE", "ON"),
        ("VREVERSE", "ON"),
        ("IMGSHIFT", "0 1"),
        ("REFRESHTIME", "00"),
    ];
    for (name, value) in expected {
        assert_eq!(
            p.process_message_at(&format!("{name}?"), on),
            Ok(Some(format!("{name}={value}")))
        );
    }
    assert_eq!(p.process_message_at("KEY?", on), Err(CommandError::InvalidCommand));
}

#[test]
fn unknown_and_malformed_requests() {
    let mut p = CommandProcessor::new(WARMING_TIME, COOLDOWN_TIME);
    let on = lamp_on_at(&mut p);
    assert_eq!(p.process_message_at("FOO?", on), Err(CommandError::InvalidCommand));
    assert_eq!(p.process_message_at("FOO 1", on), Err(CommandError::InvalidCommand));
    assert_eq!(p.process_message_at("?", on), Err(CommandError::InvalidCommand));
    assert_eq!(p.process_message_at("", on), Err(CommandError::InvalidCommand));
    assert_eq!(p.process_message_at("VOL", on), Err(CommandError::InvalidCommand));
    assert_eq!(p.process_message_at("V 1", on), Err(CommandError::InvalidCommand));
    assert_eq!(p.process_message_at("VOL ", on), Err(CommandError::InvalidCommand));
    assert_eq!(p.process_message_at("vol 1", on), Err(CommandError::InvalidCommand));
    // The leftmost name counts, wherever it stands.
    assert_eq!(p.process_message_at("xVOL 7", on), Ok(None));
    assert_eq!(p.process_message_at("VOL?", on), Ok(Some("VOL=7".to_string())));
}

#[test]
fn errors_keep_state() {
    let mut p = CommandProcessor::new(WARMING_TIME, COOLDOWN_TIME);
    let on = lamp_on_at(&mut p);
    assert_eq!(p.process_message_at("ZOOM 12", on), Ok(None));
    assert_eq!(p.process_message_at("ZOOM abc", on), Err(CommandError::InvalidValue));
    assert_eq!(p.process_message_at("SNO 1", on), Err(CommandError::InvalidCommand));
    assert_eq!(p.process_message_at("NOPE 1", on), Err(CommandError::InvalidCommand));
    assert_eq!(p.process_message_at("PWR?", on), Ok(Some("PWR=01".to_string())));
    assert_eq!(p.process_message_at("ZOOM?", on), Ok(Some("ZOOM=12".to_string())));
}

#[test]
fn timed_transition_seen_by_other_requests() {
    let mut p = CommandProcessor::new(WARMING_TIME, COOLDOWN_TIME);
    assert_eq!(p.process_message_at("PWR ON", T0), Ok(None));
    // No PWR request in between: the warm-up is over all the same.
    assert_eq!(p.process_message_at("LAMP?", T0 + 3 * SEC), Ok(Some("LAMP=100".to_string())));
}
