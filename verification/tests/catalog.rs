use revise::codec::CodecError;
use revise::wire_protocol::{
    CpuArchV0, CpuInfoV0, CudaVersionV0, DistroCodenameV0, DistroIdV0, DistroInfoV0,
    DriverVersionV0, GpuInfoV0, GpusV0, LocalDeviceV0, LocalMachineV0, MachineConfigV0,
    PciRecordV0, PciSlotV0, SystemSetupV0,
};
use revise::{deserialize_revision, serialize_revision, WireError};

fn sample_setup() -> SystemSetupV0 {
    SystemSetupV0 {
        cpu_info: CpuInfoV0 { arch: CpuArchV0::X86_64, num_cpus: 8 },
        distro_info: DistroInfoV0 {
            id: DistroIdV0::Ubuntu,
            codename: Some(DistroCodenameV0::UbuntuBionic),
        },
        gpu_info: GpuInfoV0 {
            driver_version: Some(DriverVersionV0 { major: 430, minor: 50 }),
            driver_cuda_version: Some(CudaVersionV0 { major: 10, minor: 1 }),
            toolkit_cuda_version: None,
        },
        gpus: GpusV0 {
            pci_records: vec![PciRecordV0 {
                slot: PciSlotV0 { domain: Some(0), bus: 1, device: 0, function: 0 },
                class: 0x0300,
                vendor: 0x10de,
                device: 0x1b06,
                svendor: Some(0x10de),
                sdevice: None,
                rev: Some(0xa1),
            }],
        },
    }
}

#[test]
fn arch_desc_strings() {
    assert_eq!(CpuArchV0::I386.to_desc_str(), "i386");
    assert_eq!(CpuArchV0::I686.to_desc_str(), "i686");
    assert_eq!(CpuArchV0::Ppc64Le.to_desc_str(), "ppc64le");
    assert_eq!(CpuArchV0::X86_64.to_desc_str(), "x86_64");
}

#[test]
fn distro_desc_strings() {
    assert_eq!(DistroIdV0::Alpine.to_desc_str(), "alpine");
    assert_eq!(DistroIdV0::Fedora.to_desc_str(), "fedora");
    assert_eq!(DistroIdV0::RedHat.to_desc_str(), "redhat");
    assert_eq!(DistroCodenameV0::Alpine3_8.to_desc_str(), "alpine_3_8");
    assert_eq!(DistroCodenameV0::DebianBuster.to_desc_str(), "debian_buster");
    assert_eq!(DistroCodenameV0::UbuntuXenial.to_desc_str(), "ubuntu_xenial");
}

#[test]
fn codename_to_id() {
    assert_eq!(DistroCodenameV0::Alpine3_9.to_id(), DistroIdV0::Alpine);
    assert_eq!(DistroCodenameV0::Centos6.to_id(), DistroIdV0::Centos);
    assert_eq!(DistroCodenameV0::Centos7.to_id(), DistroIdV0::Centos);
    assert_eq!(DistroCodenameV0::DebianWheezy.to_id(), DistroIdV0::Debian);
    assert_eq!(DistroCodenameV0::UbuntuTrusty.to_id(), DistroIdV0::Ubuntu);
}

#[test]
fn cuda_desc_string() {
    assert_eq!(CudaVersionV0 { major: 10, minor: 1 }.to_desc_str(), "v10_1");
    assert_eq!(CudaVersionV0 { major: 0, minor: 0 }.to_desc_str(), "v0_0");
}

#[test]
fn gpu_predicates() {
    let mut rec = PciRecordV0::default();
    rec.class = 0x0300;
    rec.vendor = 0x10de;
    assert!(rec.is_vga());
    assert!(!rec.is_3d());
    assert!(rec.is_nvidia());
    assert!(rec.is_gpu());

    rec.class = 0x0302;
    assert!(!rec.is_vga());
    assert!(rec.is_3d());
    assert!(rec.is_gpu());

    rec.vendor = 0x8086;
    assert!(!rec.is_nvidia());
    assert!(!rec.is_gpu());

    rec.class = 0x0200;
    rec.vendor = 0x10de;
    assert!(!rec.is_gpu());
}

#[test]
fn prettyprint_exact() {
    let expected = "cpu:\n  arch: x86_64\n  num cpus: 8\ndistro: ubuntu\n  codename: ubuntu_bionic\ngpu info:\n  nvidia driver: 430.50\n  cuda (driver): v10_1\ngpus:\n  gpu 0:\n    pci slot: 00000000:01:00.00\n    flags: vga nvidia\n    class: 0300\n    vendor: 10de device: 1b06 rev: a1\n    sub vendor: 10de\n";
    assert_eq!(sample_setup().prettyprinted(), expected);
}

#[test]
fn system_setup_round_trip() {
    let setup = sample_setup();
    let bytes = serialize_revision(&setup).unwrap();
    assert_eq!(&bytes[..4], &[0, 0, 0, 0]);
    let back: SystemSetupV0 = deserialize_revision(&bytes).unwrap();
    assert_eq!(back.cpu_info, setup.cpu_info);
    assert_eq!(back.distro_info, setup.distro_info);
    assert_eq!(back.gpu_info.driver_version, setup.gpu_info.driver_version);
    assert_eq!(back.gpu_info.driver_cuda_version, setup.gpu_info.driver_cuda_version);
    assert_eq!(back.gpu_info.toolkit_cuda_version, setup.gpu_info.toolkit_cuda_version);
    assert_eq!(back.gpus.pci_records.len(), 1);
    assert_eq!(back.prettyprinted(), setup.prettyprinted());
}

#[test]
fn system_setup_future_revision_rejected() {
    let setup = sample_setup();
    let mut bytes = serialize_revision(&setup).unwrap();
    bytes[0] = 1;
    let err = deserialize_revision::<SystemSetupV0>(&bytes).unwrap_err();
    assert_eq!(err, WireError::FutureSchema);
}

#[test]
fn machine_config_round_trip() {
    let cfg = MachineConfigV0 {
        local_machine: LocalMachineV0 {
            task_workers: 4,
            gpus: vec![
                LocalDeviceV0::PciSlot(String::from("0000:01:00.0")),
                LocalDeviceV0::PciSlot(String::from("0000:02:00.0")),
            ],
        },
    };
    let bytes = serialize_revision(&cfg).unwrap();
    let back: MachineConfigV0 = deserialize_revision(&bytes).unwrap();
    assert_eq!(back.local_machine.task_workers, 4);
    assert_eq!(back.local_machine.gpus.len(), 2);
    let LocalDeviceV0::PciSlot(name) = &back.local_machine.gpus[0];
    assert_eq!(name, "0000:01:00.0");
    let LocalDeviceV0::PciSlot(name) = &back.local_machine.gpus[1];
    assert_eq!(name, "0000:02:00.0");
}

#[test]
fn machine_config_matches_bincode_layout() {
    let cfg = MachineConfigV0 {
        local_machine: LocalMachineV0 {
            task_workers: 4,
            gpus: vec![LocalDeviceV0::PciSlot(String::from("x"))],
        },
    };
    let bytes = serialize_revision(&cfg).unwrap();
    // One single-variant enum with a string payload has bincode's layout:
    // the variant tag, then a length-prefixed UTF-8 string.
    let mirror = (4u32, vec![(0u32, String::from("x"))]);
    assert_eq!(&bytes[4..], &bincode::serialize(&mirror).unwrap()[..]);
}

#[test]
fn machine_config_rejects_invalid_utf8() {
    // header rev 0, task_workers, one device, tag 0, two bytes that are not
    // valid UTF-8.
    let mut bytes: Vec<u8> = Vec::new();
    bytes.extend_from_slice(&[0, 0, 0, 0]);
    bytes.extend_from_slice(&4u32.to_le_bytes());
    bytes.extend_from_slice(&1u64.to_le_bytes());
    bytes.extend_from_slice(&0u32.to_le_bytes());
    bytes.extend_from_slice(&2u64.to_le_bytes());
    bytes.extend_from_slice(&[0xff, 0xfe]);
    let err = deserialize_revision::<MachineConfigV0>(&bytes).unwrap_err();
    assert_eq!(err, WireError::Codec(CodecError));
}

#[test]
fn empty_gpu_listing_round_trips() {
    let setup = SystemSetupV0 {
        cpu_info: CpuInfoV0 { arch: CpuArchV0::I686, num_cpus: 1 },
        distro_info: DistroInfoV0 { id: DistroIdV0::Debian, codename: None },
        gpu_info: GpuInfoV0 {
            driver_version: None,
            driver_cuda_version: None,
            toolkit_cuda_version: None,
        },
        gpus: GpusV0 { pci_records: vec![] },
    };
    let bytes = serialize_revision(&setup).unwrap();
    let back: SystemSetupV0 = deserialize_revision(&bytes).unwrap();
    assert_eq!(back.gpus.pci_records.len(), 0);
    assert_eq!(
        back.prettyprinted(),
        "cpu:\n  arch: i686\n  num cpus: 1\ndistro: debian\n"
    );
}
