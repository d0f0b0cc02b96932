//! Allocator, address derivation and host-plan behaviour.

use microclaw_core::firecracker::{ApiBody, FirecrackerClient, HttpMethod};
use microclaw_core::network::{
    create_data_volume, create_tap_device, delete_tap_device, detect_host_interface,
    get_tap_gateway_ip, parse_subnet_index, subnet_for_gateway, SubnetAllocator,
};
use microclaw_core::errors::CoreError;

#[test]
fn test_allocator_monotonic_indices() {
    let mut alloc = SubnetAllocator::new("172.16.0.0/16");
    let (gw1, vm1) = alloc.allocate("a").unwrap();
    let (gw2, vm2) = alloc.allocate("b").unwrap();
    let (gw3, vm3) = alloc.allocate("c").unwrap();
    assert_eq!(gw1, "172.16.1.1");
    assert_eq!(vm1, "172.16.1.2");
    assert_eq!(gw2, "172.16.2.1");
    assert_eq!(vm2, "172.16.2.2");
    assert_eq!(gw3, "172.16.3.1");
    assert_eq!(vm3, "172.16.3.2");
    assert_eq!(alloc.next_index(), 4);
}

#[test]
fn test_allocator_duplicate_rejected_cursor_unchanged() {
    let mut alloc = SubnetAllocator::new("172.16.0.0/16");
    alloc.allocate("t1").unwrap();
    let cursor = alloc.next_index();
    let again = alloc.allocate("t1");
    assert!(matches!(again, Err(CoreError::AlreadyAllocated)));
    assert_eq!(alloc.next_index(), cursor);
}

#[test]
fn test_allocator_pool_exhausted() {
    let mut alloc = SubnetAllocator::new("172.16.0.0/16");
    alloc.set_next_index(65001);
    let r = alloc.allocate("t1");
    assert!(matches!(r, Err(CoreError::PoolExhausted)));
}

#[test]
fn test_allocator_boundary_index_still_allocates() {
    let mut alloc = SubnetAllocator::new("172.16.0.0/16");
    alloc.set_next_index(65000);
    let (gw, vm) = alloc.allocate("edge").unwrap();
    assert_eq!(gw, "172.16.65000.1");
    assert_eq!(vm, "172.16.65000.2");
    assert!(matches!(alloc.allocate("next"), Err(CoreError::PoolExhausted)));
}

#[test]
fn test_allocator_recovery_round_trip() {
    let mut alloc = SubnetAllocator::new("172.16.0.0/16");
    alloc.restore_allocation("t1", 1);
    alloc.restore_allocation("t2", 2);
    assert_eq!(alloc.next_index(), 1);
    alloc.set_next_index(3);
    assert!(matches!(alloc.allocate("t1"), Err(CoreError::AlreadyAllocated)));
    let (gw, vm) = alloc.allocate("t3").unwrap();
    assert_eq!(gw, "172.16.3.1");
    assert_eq!(vm, "172.16.3.2");
}

#[test]
fn test_allocator_release_frees_id_not_index() {
    let mut alloc = SubnetAllocator::new("172.16.0.0/16");
    alloc.allocate("t1").unwrap();
    alloc.release("t1");
    let (gw, _vm) = alloc.allocate("t1").unwrap();
    assert_eq!(gw, "172.16.2.1");
}

#[test]
fn test_parse_subnet_index() {
    assert_eq!(parse_subnet_index("172.16.7.2"), Some(7));
    assert_eq!(parse_subnet_index("172.16.65000.2"), Some(65000));
    assert_eq!(parse_subnet_index("172.16.2"), None);
    assert_eq!(parse_subnet_index("172.16.x.2"), None);
    assert_eq!(parse_subnet_index("172.16.70000.2"), None);
}

#[test]
fn test_subnet_for_gateway() {
    assert_eq!(subnet_for_gateway("172.16.1.1").unwrap(), "172.16.1.0/30");
    assert!(subnet_for_gateway("nodots").is_none());
}

#[test]
fn test_create_tap_device_plan() {
    let cmds = create_tap_device("fc-t1", "172.16.1.1", "eth0");
    assert_eq!(cmds.len(), 8);
    assert_eq!(cmds[0].program, "ip");
    assert!(cmds[0].allow_failure);
    assert_eq!(cmds[0].args, vec!["link", "del", "fc-t1"]);
    assert_eq!(cmds[1].args, vec!["tuntap", "add", "dev", "fc-t1", "mode", "tap"]);
    assert_eq!(cmds[2].args, vec!["addr", "add", "172.16.1.1/30", "dev", "fc-t1"]);
    assert_eq!(cmds[3].args, vec!["link", "set", "fc-t1", "up"]);
    assert_eq!(cmds[4].program, "sysctl");
    assert_eq!(cmds[4].args, vec!["-w", "net.ipv4.ip_forward=1"]);
    assert_eq!(
        cmds[5].args,
        vec!["-t", "nat", "-A", "POSTROUTING", "-s", "172.16.1.0/30", "-o", "eth0", "-j", "MASQUERADE"]
    );
    assert_eq!(cmds[6].args, vec!["-A", "FORWARD", "-i", "fc-t1", "-o", "eth0", "-j", "ACCEPT"]);
    assert_eq!(
        cmds[7].args,
        vec!["-A", "FORWARD", "-i", "eth0", "-o", "fc-t1", "-m", "state", "--state", "RELATED,ESTABLISHED", "-j", "ACCEPT"]
    );
}

#[test]
fn test_create_data_volume_plan() {
    let cmds = create_data_volume("/var/lib/t1/data.ext4", 512);
    assert_eq!(cmds.len(), 2);
    assert_eq!(cmds[0].program, "dd");
    assert_eq!(
        cmds[0].args,
        vec!["if=/dev/zero", "of=/var/lib/t1/data.ext4", "bs=1M", "count=512"]
    );
    assert_eq!(cmds[1].program, "mkfs.ext4");
    assert_eq!(cmds[1].args, vec!["-F", "-L", "tenant-data", "/var/lib/t1/data.ext4"]);
}

#[test]
fn test_detect_host_interface_prefers_nic_names() {
    let out = "8.8.8.8 via 10.0.0.1 dev eth0 src 10.0.0.5 uid 0";
    assert_eq!(detect_host_interface(out).unwrap(), "eth0");
    let out2 = "8.8.8.8 via 10.0.0.1 dev wlan0 src 10.0.0.5";
    assert_eq!(detect_host_interface(out2).unwrap(), "wlan0");
    let out3 = "no interface here";
    assert!(matches!(
        detect_host_interface(out3),
        Err(CoreError::HostIfaceDetection)
    ));
}

#[test]
fn test_get_tap_gateway_ip() {
    let out = "5: fc-t1: <BROADCAST> mtu 1500\n    inet 172.16.1.1/30 brd 172.16.1.3 scope global fc-t1\n";
    assert_eq!(get_tap_gateway_ip(out).unwrap(), "172.16.1.1");
    assert!(get_tap_gateway_ip("no address lines").is_none());
}

#[test]
fn test_delete_tap_device_plan() {
    let addr = "5: fc-t1: <BROADCAST>\n    inet 172.16.1.1/30 brd 172.16.1.3\n";
    let fwd = "-P FORWARD ACCEPT\n-A FORWARD -i fc-t1 -o eth0 -j ACCEPT\n-A FORWARD -i eth0 -o fc-t1 -m state --state RELATED,ESTABLISHED -j ACCEPT\n";
    let nat = "-P POSTROUTING ACCEPT\n-A POSTROUTING -s 172.16.1.0/30 -o eth0 -j MASQUERADE\n";
    let cmds = delete_tap_device("fc-t1", addr, fwd, nat);
    assert_eq!(cmds.len(), 4);
    assert_eq!(cmds[0].program, "iptables");
    assert!(cmds[0].allow_failure);
    assert_eq!(
        cmds[0].args,
        vec!["-D", "FORWARD", "-i", "fc-t1", "-o", "eth0", "-j", "ACCEPT"]
    );
    assert_eq!(
        cmds[1].args,
        vec!["-D", "FORWARD", "-i", "eth0", "-o", "fc-t1", "-m", "state", "--state", "RELATED,ESTABLISHED", "-j", "ACCEPT"]
    );
    assert_eq!(
        cmds[2].args,
        vec!["-t", "nat", "-D", "POSTROUTING", "-s", "172.16.1.0/30", "-o", "eth0", "-j", "MASQUERADE"]
    );
    assert_eq!(cmds[3].program, "ip");
    assert_eq!(cmds[3].args, vec!["link", "del", "fc-t1"]);
    assert!(!cmds[3].allow_failure);
}

#[test]
fn test_generate_mac_from_ip() {
    let mac = microclaw_core::firecracker::generate_mac("172.16.5.2");
    assert_eq!(mac, "06:00:AC:10:05:02");
}

#[test]
fn test_generate_mac_fallback_on_malformed_ip() {
    assert_eq!(microclaw_core::firecracker::generate_mac("not-an-ip"), "06:00:AC:10:00:02");
    assert_eq!(microclaw_core::firecracker::generate_mac("1.2.3"), "06:00:AC:10:00:02");
    assert_eq!(microclaw_core::firecracker::generate_mac("256.1.1.1"), "06:00:AC:10:00:02");
}

#[test]
fn test_start_vm_request_sequence() {
    let client = FirecrackerClient::new("firecracker", "/tmp/fc-t1.sock");
    let reqs = client.start_vm_requests(
        "/img/vmlinux",
        "/data/t1/rootfs.ext4",
        "/data/t1/data.ext4",
        2,
        512,
        "172.16.1.2",
        "172.16.1.1",
        "fc-t1",
        "t1",
    );
    assert_eq!(reqs.len(), 6);
    assert!(reqs.iter().all(|r| matches!(r.method, HttpMethod::Put)));
    assert_eq!(reqs[0].path, "/boot-source");
    match &reqs[0].body {
        ApiBody::BootSource { kernel_image_path, boot_args } => {
            assert_eq!(kernel_image_path, "/img/vmlinux");
            assert_eq!(
                boot_args,
                "init=/init console=ttyS0 reboot=k panic=1 pci=off FC_VM_IP=172.16.1.2 \
                 FC_VM_GATEWAY=172.16.1.1 FC_VM_NETMASK=30 FC_TENANT_ID=t1 FC_DNS=8.8.8.8 FC_PORT=8080"
            );
        }
        other => panic!("unexpected body {:?}", other),
    }
    assert_eq!(reqs[1].path, "/drives/rootfs");
    assert_eq!(reqs[2].path, "/drives/data");
    assert_eq!(reqs[3].path, "/machine-config");
    match &reqs[3].body {
        ApiBody::MachineConfig { vcpu_count, mem_size_mib } => {
            assert_eq!(*vcpu_count, 2);
            assert_eq!(*mem_size_mib, 512);
        }
        other => panic!("unexpected body {:?}", other),
    }
    assert_eq!(reqs[4].path, "/network-interfaces/eth0");
    match &reqs[4].body {
        ApiBody::NetworkInterface { iface_id, guest_mac, host_dev_name } => {
            assert_eq!(iface_id, "eth0");
            assert_eq!(guest_mac, "06:00:AC:10:01:02");
            assert_eq!(host_dev_name, "fc-t1");
        }
        other => panic!("unexpected body {:?}", other),
    }
    assert_eq!(reqs[5].path, "/actions");
}

#[test]
fn test_api_result_status_handling() {
    assert!(microclaw_core::firecracker::api_result("/vm", 204, String::new()).is_ok());
    assert!(microclaw_core::firecracker::api_result("/vm", 200, String::new()).is_ok());
    let err = microclaw_core::firecracker::api_result("/boot-source", 400, String::from("bad"));
    match err {
        Err(CoreError::HypervisorApi { path, code, body }) => {
            assert_eq!(path, "/boot-source");
            assert_eq!(code, 400);
            assert_eq!(body, "bad");
        }
        other => panic!("unexpected {:?}", other),
    }
}
