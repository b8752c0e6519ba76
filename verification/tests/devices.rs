use kasumin::deviceconfig::{BufferSize, SampleFormat, SupportedDeviceConfig};
use kasumin::devices::{AllHostsDevices, DeviceProbe, HostProbe};
use kasumin::hosterror::HostErrorKind;
use kasumin::query::SupportedOutputDevice;

fn config(channels: u16) -> SupportedDeviceConfig {
    SupportedDeviceConfig {
        channels,
        min_sample_rate: 44100,
        max_sample_rate: 48000,
        buffer_size: Some(BufferSize { min: 64, max: 4096 }),
        sample_format: SampleFormat::F32,
    }
}

fn device(name: &str, channels: u16) -> DeviceProbe {
    DeviceProbe { name: Some(name.to_string()), configs: Ok(vec![config(channels)]) }
}

fn working_host(hostid: &str, devices: Vec<DeviceProbe>) -> HostProbe {
    HostProbe { hostid: hostid.to_string(), devices: Ok(devices) }
}

fn failing_host(hostid: &str) -> HostProbe {
    HostProbe {
        hostid: hostid.to_string(),
        devices: Err(HostErrorKind::HostUnavailable),
    }
}

// Test if the iterator can be exhausted and doesn't cause a stack overflow.
#[test]
fn allhostsdevices_exhaust() {
    let mut it = AllHostsDevices::iter(Vec::new());
    while it.next().is_some() {}
    let hosts = vec![
        working_host("a", vec![device("a0", 2)]),
        working_host("empty", Vec::new()),
        failing_host("b"),
    ];
    let mut it = AllHostsDevices::iter(hosts);
    let mut pulled = 0;
    while it.next().is_some() {
        pulled += 1;
    }
    assert_eq!(pulled, 2);
    assert!(it.next().is_none(), "an exhausted cursor stays exhausted");
}

#[test]
fn devices_allhostsdevices_exhaust() {
    let hosts = vec![working_host("only", vec![device("d0", 1), device("d1", 2)])];
    let mut it = AllHostsDevices::iter(hosts);
    let mut pulled = 0;
    while it.next().is_some() {
        pulled += 1;
    }
    assert_eq!(pulled, 2);
}

#[test]
fn allhostdevices_has_default_output() {
    let default_output = "default".to_string();
    let hosts = vec![
        working_host("first", vec![device("other", 2)]),
        working_host("second", vec![device("default", 2), device("extra", 4)]),
    ];
    let mut it = AllHostsDevices::iter(hosts);
    let mut found = false;
    while let Some(entry) = it.next() {
        if entry.as_ref().map_or(false, |pair| {
            pair.device.as_ref().map_or(false, |name| *name == default_output)
        }) {
            found = true;
        }
    }
    assert!(found, "The default output device should be yielded by the iterator.");
}

#[test]
fn devices_allhostdevices_has_default_output() {
    let default_output = "default".to_string();
    let hosts = vec![working_host("host", vec![device("default", 2)])];
    let mut it = AllHostsDevices::iter(hosts);
    let mut found = false;
    while let Some(entry) = it.next() {
        if entry.as_ref().map_or(false, |pair| {
            pair.device.as_ref().map_or(false, |name| *name == default_output)
        }) {
            found = true;
        }
    }
    assert!(found, "The default output device should be yielded by the iterator.");
}

// With hosts A, B, C where B fails to open, the sequence yields all devices
// of A and C plus one error entry for B, in host order.
#[test]
fn enumeration_isolates_a_failing_host() {
    let hosts = vec![
        working_host("A", vec![device("a0", 2), device("a1", 4)]),
        failing_host("B"),
        working_host("C", vec![device("c0", 1)]),
    ];
    let mut it = AllHostsDevices::iter(hosts);

    let first = it.next().unwrap().unwrap();
    assert_eq!(first.hostid, "A");
    assert_eq!(first.device.as_deref(), Some("a0"));
    assert_eq!(first.configs, vec![config(2)]);

    let second = it.next().unwrap().unwrap();
    assert_eq!(second.hostid, "A");
    assert_eq!(second.device.as_deref(), Some("a1"));

    let third = it.next().unwrap().expect_err("host B failed to open");
    assert_eq!(third.hostid.as_deref(), Some("B"));
    assert!(matches!(third.error, HostErrorKind::HostUnavailable));
    assert!(third.device_name.is_none());

    let fourth = it.next().unwrap().unwrap();
    assert_eq!(fourth.hostid, "C");
    assert_eq!(fourth.device.as_deref(), Some("c0"));

    assert!(it.next().is_none());
}

#[test]
fn enumeration_isolates_a_failing_device() {
    let hosts = vec![working_host(
        "H",
        vec![
            device("good", 2),
            DeviceProbe {
                name: Some("broken".to_string()),
                configs: Err("no stream configs".to_string()),
            },
            device("also-good", 2),
        ],
    )];
    let mut it = AllHostsDevices::iter(hosts);

    assert_eq!(it.next().unwrap().unwrap().device.as_deref(), Some("good"));
    let err = it.next().unwrap().expect_err("the broken device yields an error");
    assert_eq!(err.hostid.as_deref(), Some("H"));
    assert_eq!(err.device_name.as_deref(), Some("broken"));
    assert!(matches!(err.error, HostErrorKind::StreamConfig(ref d) if d == "no stream configs"));
    assert_eq!(it.next().unwrap().unwrap().device.as_deref(), Some("also-good"));
    assert!(it.next().is_none());
}

#[test]
fn pair_converts_to_wire_description() {
    let hosts = vec![working_host("alsa", vec![device("speakers", 2)])];
    let mut it = AllHostsDevices::iter(hosts);
    let pair = it.next().unwrap().unwrap();
    let wire = SupportedOutputDevice::from_pair(&pair);
    assert_eq!(wire.host, "alsa");
    assert_eq!(wire.device, "speakers");
    assert_eq!(wire.stream_configs, vec![config(2)]);

    let hosts = vec![working_host("h", vec![DeviceProbe { name: None, configs: Ok(vec![]) }])];
    let mut it = AllHostsDevices::iter(hosts);
    let pair = it.next().unwrap().unwrap();
    let wire = SupportedOutputDevice::from_pair(&pair);
    assert_eq!(wire.device, "", "a nameless device is listed with an empty name");
}
