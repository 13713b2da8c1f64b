use sha2::{Digest, Sha256};
use tategoto::devices::{choose_input_device, describe_input_device, stable_device_id, DeviceChoice, DeviceError};
use tategoto::model::{InputDeviceMode, Settings, TranscriptionSettings};

fn reference_id(index: usize, name: &str) -> String {
    let mut hasher = Sha256::new();
    hasher.update(index.to_le_bytes());
    hasher.update(name.as_bytes());
    format!("{:x}", hasher.finalize())
}

#[test]
fn fixed_device_does_not_fallback_to_default_when_missing() {
    let settings = Settings {
        input_device_mode: InputDeviceMode::FixedDevice,
        input_device_id: Some("missing-device-id".to_string()),
        input_device_name: Some("Missing Device".to_string()),
        transcription: TranscriptionSettings::default(),
    };

    let devices = vec![Some("MacBook Pro Microphone".to_string()), None];
    let error = match choose_input_device(&settings, true, &devices) {
        Ok(_) => panic!("fixed missing device should fail"),
        Err(error) => error,
    };
    assert!(error.message().contains("fixed input device was not found"));
}

#[test]
fn device_id_is_sha256_of_index_and_name() {
    assert_eq!(stable_device_id(3, Some("USB Mic")), reference_id(3, "USB Mic"));
    assert_eq!(stable_device_id(0, None), reference_id(0, "unknown"));
    assert_eq!(stable_device_id(1, Some("マイク")).len(), 64);
}

#[test]
fn fixed_device_is_found_by_id() {
    let devices = vec![Some("A".to_string()), Some("B".to_string()), Some("B".to_string())];
    let settings = Settings {
        input_device_mode: InputDeviceMode::FixedDevice,
        input_device_id: Some(reference_id(1, "B")),
        input_device_name: None,
        transcription: TranscriptionSettings::default(),
    };
    assert_eq!(choose_input_device(&settings, false, &devices).unwrap(), DeviceChoice::Listed(1));
}

#[test]
fn device_choice_errors() {
    let mut settings = Settings::default();
    assert_eq!(choose_input_device(&settings, true, &Vec::new()).unwrap(), DeviceChoice::SystemDefault);
    let e = choose_input_device(&settings, false, &Vec::new()).unwrap_err();
    assert_eq!(e.message(), "default input device not found");
    settings.input_device_mode = InputDeviceMode::FixedDevice;
    let e = choose_input_device(&settings, true, &Vec::new()).unwrap_err();
    assert!(matches!(e, DeviceError::FixedNotSelected));
    assert_eq!(e.message(), "fixed input device is not selected");
}

#[test]
fn devices_are_described_with_fallback_names() {
    let default_name = Some("Mic".to_string());
    let d = describe_input_device(2, Some("Mic".to_string()), &default_name);
    assert_eq!(d.id, reference_id(2, "Mic"));
    assert_eq!(d.name, "Mic");
    assert!(d.is_default);
    let u = describe_input_device(0, None, &default_name);
    assert_eq!(u.name, "Unknown input device");
    assert_eq!(u.id, reference_id(0, "unknown"));
    assert!(!u.is_default);
    let n = describe_input_device(1, Some("Other".to_string()), &None);
    assert!(!n.is_default);
}
