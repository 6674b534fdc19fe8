use brighty::codec::SocketMessage;
use brighty::error::BrightyError;
use brighty::executor::{Action, DeviceState};

fn persisted(a: Action) -> usize {
    match a {
        Action::Persist(v) => v,
        Action::Rebind(name) => panic!("unexpected rebind to {}", name),
    }
}

#[test]
fn end_to_end_three_ups_then_absolute() {
    let mut state = DeviceState::new(50, 200);
    assert_eq!(state.step(), 2);
    let mut last = 0;
    for _ in 0..3 {
        let frame = SocketMessage::SetRelativeBrightnessUp.to_buff().unwrap();
        last = persisted(state.handle_frame(&frame).unwrap());
    }
    assert_eq!(last, 56);
    let frame = SocketMessage::SetBrightnessAbsolute(500).to_buff().unwrap();
    assert_eq!(persisted(state.handle_frame(&frame).unwrap()), 200);
    assert_eq!(state.current, 200);
}

#[test]
fn down_floors_at_zero() {
    let mut state = DeviceState::new(3, 500);
    assert_eq!(state.step(), 5);
    let a = state.execute_command(SocketMessage::SetRelativeBrightnessDown);
    assert_eq!(persisted(a), 0);
    assert_eq!(state.current, 0);
}

#[test]
fn down_by_one_step() {
    let mut state = DeviceState::new(100, 1000);
    assert_eq!(persisted(state.execute_command(SocketMessage::SetRelativeBrightnessDown)), 90);
}

#[test]
fn absolute_above_ceiling_clamps() {
    let mut state = DeviceState::new(10, 937);
    let a = state.execute_command(SocketMessage::SetBrightnessAbsolute(937 + 1000));
    assert_eq!(persisted(a), 937);
}

#[test]
fn up_clamps_at_ceiling() {
    let mut state = DeviceState::new(199, 200);
    assert_eq!(persisted(state.execute_command(SocketMessage::SetRelativeBrightnessUp)), 200);
}

#[test]
fn clamp_applies_to_unchanged_value_above_ceiling() {
    let mut state = DeviceState::new(80, 50);
    assert_eq!(state.step(), 0);
    assert_eq!(persisted(state.execute_command(SocketMessage::SetRelativeBrightnessUp)), 50);
}

#[test]
fn up_near_usize_max_does_not_overflow() {
    let mut state = DeviceState::new(usize::MAX, usize::MAX);
    assert_eq!(
        persisted(state.execute_command(SocketMessage::SetRelativeBrightnessUp)),
        usize::MAX
    );
}

#[test]
fn small_ceiling_has_zero_step() {
    let mut state = DeviceState::new(40, 99);
    assert_eq!(state.step(), 0);
    assert_eq!(persisted(state.execute_command(SocketMessage::SetRelativeBrightnessUp)), 40);
    assert_eq!(persisted(state.execute_command(SocketMessage::SetRelativeBrightnessDown)), 40);
}

#[test]
fn switch_device_asks_for_rebind() {
    let mut state = DeviceState::new(5, 300);
    match state.execute_command(SocketMessage::ChangeBrightnessFile("amdgpu_bl0".to_string())) {
        Action::Rebind(name) => assert_eq!(name, "amdgpu_bl0"),
        Action::Persist(v) => panic!("unexpected persist {}", v),
    }
    assert_eq!(state, DeviceState::new(5, 300));
}

#[test]
fn short_frame_leaves_state_unchanged() {
    let mut state = DeviceState::new(70, 200);
    let r = state.handle_frame(&[2u8; 10]);
    assert!(matches!(r, Err(BrightyError::TruncatedFrame)));
    assert_eq!(state, DeviceState::new(70, 200));
}

#[test]
fn failed_rebind_keeps_binding() {
    let mut state = DeviceState::new(70, 200);
    let r = state.complete_rebind(Err(BrightyError::DeviceNotFound));
    assert_eq!(r, Err(BrightyError::DeviceNotFound));
    assert_eq!(state, DeviceState::new(70, 200));
}

#[test]
fn successful_rebind_adopts_new_values() {
    let mut state = DeviceState::new(70, 200);
    let fresh = DeviceState::from_contents("1200\n", "4800\n");
    assert_eq!(state.complete_rebind(fresh), Ok(1200));
    assert_eq!(state, DeviceState::new(1200, 4800));
    assert_eq!(state.step(), 48);
}

#[test]
fn from_contents_reads_both_files() {
    assert_eq!(
        DeviceState::from_contents("50\n", " 200 \n"),
        Ok(DeviceState::new(50, 200))
    );
}

#[test]
fn from_contents_rejects_malformed_value() {
    assert_eq!(
        DeviceState::from_contents("fifty\n", "200\n"),
        Err(BrightyError::MalformedValue)
    );
    assert_eq!(
        DeviceState::from_contents("50\n", ""),
        Err(BrightyError::MalformedValue)
    );
}

#[test]
fn rebind_clamps_value_above_new_ceiling() {
    let mut state = DeviceState::new(10, 200);
    let fresh = DeviceState::from_contents("300\n", "200\n");
    assert_eq!(state.complete_rebind(fresh), Ok(200));
    assert_eq!(state, DeviceState::new(200, 200));
}
