use workshop_hub::inspector::{
    device_path, disks, lsblk_flag, lsblk_size, network_device, parse_pci_devices, parse_pci_line,
    split_lines, split_text, trim_matches, wipe_action, BlockDevice, FlagValue, LsblkDevice,
    SizeValue, WipeAction,
};

#[test]
fn lines_like_std() {
    for t in ["", "a", "a\n", "a\nb", "a\r\nb\r\n", "\n\n", "a\r", "x\ry\n", "\r\n"] {
        let expected: Vec<String> = t.lines().map(|s| s.to_string()).collect();
        assert_eq!(split_lines(t), expected, "input {:?}", t);
    }
}

#[test]
fn split_and_trim_like_std() {
    for (s, sep) in [("a\" \"b\" \"c", "\" \""), ("", ","), (",,", ","), ("aaa", "aa"), ("x", "yz")] {
        let expected: Vec<String> = s.split(sep).map(|p| p.to_string()).collect();
        assert_eq!(split_text(s, sep), expected, "input {:?} {:?}", s, sep);
    }
    for s in ["\"abc\"", "\"\"\"", "a\"b", "", "\"\"x\"y\"\""] {
        assert_eq!(trim_matches(s, '"'), s.trim_matches('"'), "input {:?}", s);
    }
}

#[test]
fn pci_lines() {
    let line = "00:1f.2 \"SATA controller\" \"Intel Corporation\" \"C600/X79 series chipset SATA RAID Controller\" -r05 \"Dell\" \"Device 04ce\"";
    let d = parse_pci_line(line).unwrap();
    assert_eq!(d.slot, "00:1f.2 \"SATA controller");
    let exact = "\"00:1f.2\" \"SATA controller\" \"Intel\" \"RAID\"";
    let e = parse_pci_line(exact).unwrap();
    assert_eq!((e.slot.as_str(), e.class.as_str(), e.vendor.as_str(), e.device.as_str()), ("00:1f.2", "SATA controller", "Intel", "RAID"));
    assert!(parse_pci_line("\"a\" \"b\" \"c\"").is_none());
    let all = parse_pci_devices("\"a\" \"b\" \"c\" \"d\"\nbad line\r\n\"e\" \"f\" \"g\" \"h\" \"i\"\n");
    assert_eq!(all.len(), 2);
    assert_eq!(all[0].slot, "a");
    assert_eq!(all[1].device, "h");
}

fn lsblk(name: &str, ty: &str, ro: bool) -> LsblkDevice {
    LsblkDevice { name: name.to_string(), size: 512, model: Some("M".to_string()), tran: None, serial: None, dev_type: ty.to_string(), ro }
}

#[test]
fn block_devices_and_wiping() {
    let ds = disks(vec![lsblk("sda", "disk", false), lsblk("sda1", "part", false), lsblk("sr0", "rom", true), lsblk("loop0", "disk", false)]);
    assert_eq!(ds.len(), 2);
    assert_eq!(ds[0].name, "sda");
    assert_eq!(ds[0].size_bytes, 512);
    assert_eq!(ds[0].model.as_deref(), Some("M"));
    assert_eq!(ds[1].name, "loop0");
    let dev = |name: &str, ro: bool| BlockDevice { name: name.to_string(), size_bytes: 0, model: None, transport: None, serial: None, read_only: ro };
    assert!(matches!(wipe_action(&dev("sda", true)), WipeAction::SkipReadOnly));
    assert!(matches!(wipe_action(&dev("loop3", false)), WipeAction::SkipVirtual));
    assert!(matches!(wipe_action(&dev("ram0", false)), WipeAction::SkipVirtual));
    assert!(matches!(wipe_action(&dev("zram0", false)), WipeAction::SkipVirtual));
    assert!(matches!(wipe_action(&dev("nvme0n1", false)), WipeAction::Wipe));
    assert_eq!(device_path("sda"), "/dev/sda");
    assert_eq!(lsblk_size(&SizeValue::Unsigned(7)), Some(7));
    assert_eq!(lsblk_size(&SizeValue::Text("4096".to_string())), Some(4096));
    assert_eq!(lsblk_size(&SizeValue::Text("4k".to_string())), None);
    assert_eq!(lsblk_size(&SizeValue::Other), Some(0));
    assert!(lsblk_flag(&FlagValue::Bool(true)));
    assert!(lsblk_flag(&FlagValue::Text("1".to_string())));
    assert!(lsblk_flag(&FlagValue::Text("true".to_string())));
    assert!(!lsblk_flag(&FlagValue::Text("yes".to_string())));
    assert!(lsblk_flag(&FlagValue::Number(Some(1))));
    assert!(!lsblk_flag(&FlagValue::Number(Some(2))));
    assert!(!lsblk_flag(&FlagValue::Number(None)));
    assert!(!lsblk_flag(&FlagValue::Other));
}

#[test]
fn network_devices() {
    assert!(network_device("lo".to_string(), true, None, None, None).is_none());
    assert!(network_device("eth0".to_string(), false, None, None, None).is_none());
    let d = network_device("eth0".to_string(), true, Some(" aa:bb:cc\n".to_string()), Some("1000\n".to_string()), Some("e1000".to_string())).unwrap();
    assert_eq!(d.name, "eth0");
    assert_eq!(d.mac_address, "aa:bb:cc");
    assert_eq!(d.speed_mbps, Some(1000));
    assert_eq!(d.driver.as_deref(), Some("e1000"));
    let e = network_device("wlan0".to_string(), true, None, Some("-1".to_string()), None).unwrap();
    assert_eq!(e.mac_address, "");
    assert_eq!(e.speed_mbps, Some(-1));
    let f = network_device("x".to_string(), true, None, Some("unknown".to_string()), None).unwrap();
    assert_eq!(f.speed_mbps, None);
}
