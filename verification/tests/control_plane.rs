//! Store round trip, recovery reconciliation, lifecycle scenarios,
//! proxy routing and metrics, against a real catalog file.

use microclaw_core::clock::now_ts;
use microclaw_core::db::Database;
use microclaw_core::errors::CoreError;
use microclaw_core::manager::TenantManager;
use microclaw_core::network::SubnetAllocator;
use microclaw_core::proxy::{proxy_route, ProxyDecision, TenantHeader};
use microclaw_core::tenant::{CreateTenantRequest, Tenant, TenantStatus, Tier};

fn scratch_db_path(name: &str) -> String {
    format!("/tmp/microclaw_core_{}_{}.db", name, now_ts())
}

fn new_manager(db_path: &str) -> TenantManager {
    let db = Database::new(db_path).expect("open catalog");
    TenantManager::new(
        String::from("firecracker"),
        String::from("/img/vmlinux"),
        String::from("/img/rootfs.ext4"),
        String::from("/data/tenants"),
        String::from("/data/snapshots"),
        SubnetAllocator::new("172.16.0.0/16"),
        db,
    )
}

fn request(id: &str, tier: Tier) -> CreateTenantRequest {
    CreateTenantRequest {
        tenant_id: String::from(id),
        tier,
        channels: vec![String::from("web")],
        env_vars: vec![(String::from("KEY"), String::from("VALUE"))],
        skip_tool_approval: false,
    }
}

fn create(manager: &mut TenantManager, id: &str, tier: Tier, pid: u32) -> Tenant {
    let plan = manager.create_tenant_begin(&request(id, tier)).expect("begin");
    manager.create_tenant_finish(request(id, tier), plan, Ok(pid)).expect("finish")
}

fn sample_tenant(id: &str, status: TenantStatus, vm_ip: &str, vm_pid: Option<u32>) -> Tenant {
    Tenant {
        id: String::from(id),
        tier: Tier::Pro,
        status,
        vm_ip: String::from(vm_ip),
        gateway_ip: String::from("172.16.1.1"),
        tap_device: String::from("fc-t"),
        socket_path: String::from("/tmp/fc-t.sock"),
        data_dir: String::from("/data/tenants/t"),
        vm_pid,
        channels: vec![String::from("web"), String::from("telegram")],
        created_at: 1700000000,
        skip_tool_approval: true,
    }
}

#[test]
fn test_store_round_trip() {
    let path = scratch_db_path("round_trip");
    let db = Database::new(&path).unwrap();
    let original = sample_tenant("t1", TenantStatus::Running, "172.16.1.2", Some(4242));
    db.insert_tenant(&original).unwrap();
    let loaded = db.load_all_tenants().unwrap();
    assert_eq!(loaded.len(), 1);
    let t = &loaded[0];
    assert_eq!(t.id, "t1");
    assert_eq!(t.tier, Tier::Pro);
    assert_eq!(t.status, TenantStatus::Running);
    assert_eq!(t.vm_ip, "172.16.1.2");
    assert_eq!(t.gateway_ip, "172.16.1.1");
    assert_eq!(t.tap_device, "fc-t");
    assert_eq!(t.socket_path, "/tmp/fc-t.sock");
    assert_eq!(t.data_dir, "/data/tenants/t");
    assert_eq!(t.vm_pid, Some(4242));
    assert_eq!(t.channels, vec!["web", "telegram"]);
    assert_eq!(t.created_at, 1700000000);
    assert!(t.skip_tool_approval);
}

#[test]
fn test_store_duplicate_insert_fails() {
    let path = scratch_db_path("dup_insert");
    let db = Database::new(&path).unwrap();
    let t = sample_tenant("t1", TenantStatus::Running, "172.16.1.2", None);
    db.insert_tenant(&t).unwrap();
    assert!(matches!(db.insert_tenant(&t), Err(CoreError::Db)));
}

#[test]
fn test_store_next_index_default_and_round_trip() {
    let path = scratch_db_path("next_index");
    let db = Database::new(&path).unwrap();
    assert_eq!(db.get_subnet_next_index().unwrap(), 1);
    db.set_subnet_next_index(17).unwrap();
    assert_eq!(db.get_subnet_next_index().unwrap(), 17);
}

#[test]
fn test_recover_marks_dead_running_tenant_stopped() {
    let path = scratch_db_path("recover_dead");
    {
        let db = Database::new(&path).unwrap();
        let t = sample_tenant("t1", TenantStatus::Running, "172.16.1.2", Some(3999999999));
        db.insert_tenant(&t).unwrap();
        db.set_subnet_next_index(2).unwrap();
    }
    let mut manager = new_manager(&path);
    manager.recover();
    let t = manager.get_tenant("t1").expect("recovered tenant");
    assert_eq!(t.status, TenantStatus::Stopped);
    assert_eq!(t.vm_pid, None);
    // the change was persisted
    let db = Database::new(&path).unwrap();
    let rows = db.load_all_tenants().unwrap();
    assert_eq!(rows[0].status, TenantStatus::Stopped);
    assert_eq!(rows[0].vm_pid, None);
}

#[test]
fn test_recover_marks_creating_tenant_failed() {
    let path = scratch_db_path("recover_creating");
    {
        let db = Database::new(&path).unwrap();
        let t = sample_tenant("t1", TenantStatus::Creating, "172.16.1.2", Some(4242));
        db.insert_tenant(&t).unwrap();
    }
    let mut manager = new_manager(&path);
    manager.recover();
    let t = manager.get_tenant("t1").expect("recovered tenant");
    assert_eq!(t.status, TenantStatus::Failed);
    assert_eq!(t.vm_pid, None);
    let db = Database::new(&path).unwrap();
    let rows = db.load_all_tenants().unwrap();
    assert_eq!(rows[0].status, TenantStatus::Failed);
    assert_eq!(rows[0].vm_pid, None);
}

#[test]
fn test_recover_keeps_stopped_tenant_unchanged() {
    let path = scratch_db_path("recover_stopped");
    {
        let db = Database::new(&path).unwrap();
        let t = sample_tenant("t1", TenantStatus::Stopped, "172.16.1.2", None);
        db.insert_tenant(&t).unwrap();
    }
    let mut manager = new_manager(&path);
    manager.recover();
    let t = manager.get_tenant("t1").expect("recovered tenant");
    assert_eq!(t.status, TenantStatus::Stopped);
}

#[test]
fn test_transition_guards() {
    let path = scratch_db_path("guards");
    let mut manager = new_manager(&path);
    let t = create(&mut manager, "t1", Tier::Pro, 1234);
    assert_eq!(t.status, TenantStatus::Running);

    // resume on a Running tenant fails InvalidState
    assert!(matches!(manager.resume_tenant_check("t1"), Err(CoreError::InvalidState)));
    // update_env on a Running tenant fails InvalidState
    assert!(matches!(manager.update_env_check("t1"), Err(CoreError::InvalidState)));

    manager.stop_tenant("t1").unwrap();
    // pause on a Stopped tenant fails InvalidState
    assert!(matches!(manager.pause_tenant_check("t1"), Err(CoreError::InvalidState)));
    // update_env on a Stopped tenant is allowed
    assert_eq!(manager.update_env_check("t1").unwrap(), "/data/tenants/t1");
    // start on a Running tenant fails InvalidState
    let t2 = create(&mut manager, "t2", Tier::Free, 77);
    assert_eq!(t2.status, TenantStatus::Running);
    assert!(matches!(manager.start_tenant_check("t2", false), Err(CoreError::InvalidState)));
}

#[test]
fn test_scenario_create_first_tenant() {
    let path = scratch_db_path("s_create1");
    let mut manager = new_manager(&path);
    let plan = manager.create_tenant_begin(&request("t1", Tier::Pro)).unwrap();
    assert_eq!(plan.gateway_ip, "172.16.1.1");
    assert_eq!(plan.vm_ip, "172.16.1.2");
    assert_eq!(plan.tap_device, "fc-t1");
    assert_eq!(plan.socket_path, "/tmp/fc-t1.sock");
    assert_eq!(plan.tenant_data_dir, "/data/tenants/t1");
    let t = manager.create_tenant_finish(request("t1", Tier::Pro), plan, Ok(1234)).unwrap();
    assert_eq!(t.status, TenantStatus::Running);
    assert_eq!(t.vm_pid, Some(1234));
    let db = Database::new(&path).unwrap();
    assert_eq!(db.get_subnet_next_index().unwrap(), 2);
}

#[test]
fn test_scenario_second_tenant_and_list() {
    let path = scratch_db_path("s_create2");
    let mut manager = new_manager(&path);
    create(&mut manager, "t1", Tier::Pro, 1234);
    let plan = manager.create_tenant_begin(&request("t2", Tier::Free)).unwrap();
    assert_eq!(plan.gateway_ip, "172.16.2.1");
    assert_eq!(plan.vm_ip, "172.16.2.2");
    manager.create_tenant_finish(request("t2", Tier::Free), plan, Ok(4321)).unwrap();
    let db = Database::new(&path).unwrap();
    assert_eq!(db.get_subnet_next_index().unwrap(), 3);
    let mut ids: Vec<String> = manager.list_tenants().into_iter().map(|t| t.id).collect();
    ids.sort();
    assert_eq!(ids, vec!["t1", "t2"]);
}

#[test]
fn test_scenario_duplicate_create_rejected() {
    let path = scratch_db_path("s_dup");
    let mut manager = new_manager(&path);
    create(&mut manager, "t1", Tier::Pro, 1234);
    assert!(matches!(
        manager.create_tenant_begin(&request("t1", Tier::Pro)),
        Err(CoreError::Duplicate)
    ));
}

#[test]
fn test_scenario_failed_provisioning_rolls_back() {
    let path = scratch_db_path("s_rollback");
    let mut manager = new_manager(&path);
    let plan = manager.create_tenant_begin(&request("t1", Tier::Pro)).unwrap();
    let r = manager.create_tenant_finish(
        request("t1", Tier::Pro),
        plan,
        Err(CoreError::SocketTimeout),
    );
    assert!(matches!(r, Err(CoreError::SocketTimeout)));
    assert!(manager.get_tenant("t1").is_none());
    // the subnet mapping was released; the cursor stays advanced
    let plan2 = manager.create_tenant_begin(&request("t1", Tier::Pro)).unwrap();
    assert_eq!(plan2.gateway_ip, "172.16.2.1");
}

#[test]
fn test_scenario_pause_resume() {
    let path = scratch_db_path("s_pause");
    let mut manager = new_manager(&path);
    create(&mut manager, "t1", Tier::Pro, 1234);

    let (socket, req) = manager.pause_tenant_check("t1").unwrap();
    assert_eq!(socket, "/tmp/fc-t1.sock");
    assert_eq!(req.path, "/vm");
    manager.pause_tenant_commit("t1").unwrap();
    let t = manager.get_tenant("t1").unwrap();
    assert_eq!(t.status, TenantStatus::Paused);
    assert_eq!(t.vm_pid, Some(1234));

    let (_socket, req) = manager.resume_tenant_check("t1").unwrap();
    assert_eq!(req.path, "/vm");
    manager.resume_tenant_commit("t1").unwrap();
    let t = manager.get_tenant("t1").unwrap();
    assert_eq!(t.status, TenantStatus::Running);
    assert_eq!(t.vm_pid, Some(1234));
}

#[test]
fn test_scenario_delete_tenant() {
    let path = scratch_db_path("s_delete");
    let mut manager = new_manager(&path);
    create(&mut manager, "t1", Tier::Pro, 1234);
    create(&mut manager, "t2", Tier::Free, 4321);

    let removed = manager.delete_tenant("t1").unwrap();
    assert_eq!(removed.id, "t1");
    assert!(manager.get_tenant("t1").is_none());
    let ids: Vec<String> = manager.list_tenants().into_iter().map(|t| t.id).collect();
    assert_eq!(ids, vec!["t2"]);
    let db = Database::new(&path).unwrap();
    assert_eq!(db.get_subnet_next_index().unwrap(), 3);
    assert!(matches!(manager.delete_tenant("t1"), Err(CoreError::NotFound)));
}

#[test]
fn test_scenario_restart_recovers_allocator() {
    let path = scratch_db_path("s_restart");
    {
        let mut manager = new_manager(&path);
        create(&mut manager, "t1", Tier::Pro, 1234);
        let t2 = create(&mut manager, "t2", Tier::Free, 3999999999);
        assert_eq!(t2.vm_ip, "172.16.2.2");
        manager.delete_tenant("t1").unwrap();
    }
    // restart: t2 is stored Running with a PID of a process that is gone
    let mut manager = new_manager(&path);
    manager.recover();
    let t2 = manager.get_tenant("t2").unwrap();
    assert_eq!(t2.status, TenantStatus::Stopped);
    assert_eq!(t2.vm_pid, None);
    // cursor honored, mapping t2 -> 2 restored
    assert!(matches!(manager.create_tenant_begin(&request("t2", Tier::Free)), Err(CoreError::Duplicate)));
    let plan = manager.create_tenant_begin(&request("t3", Tier::Free)).unwrap();
    assert_eq!(plan.gateway_ip, "172.16.3.1");
}

#[test]
fn test_proxy_pass_through_without_header() {
    let path = scratch_db_path("proxy_pass");
    let manager = new_manager(&path);
    let d = proxy_route(&manager, &TenantHeader::Absent, "/api/v1/tenants", None);
    assert!(matches!(d, ProxyDecision::PassThrough));
}

#[test]
fn test_proxy_rewrite_known_tenant() {
    let path = scratch_db_path("proxy_rewrite");
    let mut manager = new_manager(&path);
    create(&mut manager, "t1", Tier::Pro, 1234);
    let query = String::from("x=1");
    let d = proxy_route(
        &manager,
        &TenantHeader::Present(String::from("t1")),
        "/foo",
        Some(&query),
    );
    match d {
        ProxyDecision::Forward { uri, host } => {
            assert_eq!(uri, "http://172.16.1.2:8080/foo?x=1");
            assert_eq!(host, "172.16.1.2:8080");
        }
        other => panic!("unexpected {:?}", decision_name(&other)),
    }
}

#[test]
fn test_proxy_forward_without_query() {
    let path = scratch_db_path("proxy_noquery");
    let mut manager = new_manager(&path);
    create(&mut manager, "t2", Tier::Free, 4321);
    let d = proxy_route(&manager, &TenantHeader::Present(String::from("t2")), "/anything", None);
    match d {
        ProxyDecision::Forward { uri, host } => {
            assert_eq!(uri, "http://172.16.1.2:8080/anything");
            assert_eq!(host, "172.16.1.2:8080");
        }
        other => panic!("unexpected {:?}", decision_name(&other)),
    }
}

#[test]
fn test_proxy_unknown_tenant_and_bad_header() {
    let path = scratch_db_path("proxy_unknown");
    let manager = new_manager(&path);
    let d = proxy_route(&manager, &TenantHeader::Present(String::from("ghost")), "/x", None);
    assert!(matches!(d, ProxyDecision::NotFound));
    let d = proxy_route(&manager, &TenantHeader::Invalid, "/x", None);
    assert!(matches!(d, ProxyDecision::BadRequest));
}

fn decision_name(d: &ProxyDecision) -> &'static str {
    match d {
        ProxyDecision::PassThrough => "pass-through",
        ProxyDecision::BadRequest => "bad-request",
        ProxyDecision::NotFound => "not-found",
        ProxyDecision::Forward { .. } => "forward",
    }
}

#[test]
fn test_metrics_counts_sum_to_total() {
    let path = scratch_db_path("metrics");
    let mut manager = new_manager(&path);
    create(&mut manager, "t1", Tier::Pro, 1);
    create(&mut manager, "t2", Tier::Free, 2);
    create(&mut manager, "t3", Tier::Team, 3);
    manager.stop_tenant("t2").unwrap();
    manager.pause_tenant_check("t3").unwrap();
    manager.pause_tenant_commit("t3").unwrap();
    manager.register_tenant(sample_tenant("t4", TenantStatus::Failed, "172.16.9.2", None)).unwrap();

    let counts = manager.metrics_counts();
    assert_eq!(counts.total, 4);
    assert_eq!(counts.running, 1);
    assert_eq!(counts.stopped, 1);
    assert_eq!(counts.paused, 1);
    assert_eq!(counts.failed, 1);
    assert_eq!(counts.creating, 0);
    assert_eq!(
        counts.creating + counts.running + counts.stopped + counts.paused + counts.failed,
        counts.total
    );
}

#[test]
fn test_health_report() {
    let path = scratch_db_path("health");
    let mut manager = new_manager(&path);
    create(&mut manager, "t1", Tier::Pro, 1);
    let url = manager.health_probe_url("t1").unwrap();
    assert_eq!(url.unwrap(), "http://172.16.1.2:8080/health");
    let h = manager.health_report("t1", false).unwrap();
    assert_eq!(h.vm_status, "running");
    assert_eq!(h.microclaw_status, "unreachable");
    let h = manager.health_report("t1", true).unwrap();
    assert_eq!(h.microclaw_status, "healthy");

    manager.stop_tenant("t1").unwrap();
    assert!(manager.health_probe_url("t1").unwrap().is_none());
    let h = manager.health_report("t1", false).unwrap();
    assert_eq!(h.vm_status, "stopped");
    assert_eq!(h.microclaw_status, "n/a");
    assert!(matches!(manager.health_report("ghost", false), Err(CoreError::NotFound)));
}

#[test]
fn test_snapshot_plan_guards_and_paths() {
    let path = scratch_db_path("snapshot");
    let mut manager = new_manager(&path);
    create(&mut manager, "t1", Tier::Pro, 1);
    let plan = manager.snapshot_tenant_plan("t1").unwrap();
    assert!(plan.pause_first);
    assert!(plan.snapshot_dir.starts_with("/data/tenants/t1/snapshots/"));
    // the directory carries a YYYYMMDD_HHMMSS stamp of the plan's clock reading
    let stamp = &plan.snapshot_dir["/data/tenants/t1/snapshots/".len()..];
    assert_eq!(stamp.len(), 15);
    assert_eq!(&stamp[8..9], "_");
    assert!(stamp[..8].chars().all(|c| c.is_ascii_digit()));
    assert_eq!(plan.snapshot_path, format!("{}/vm.snap", plan.snapshot_dir));
    assert_eq!(plan.mem_path, format!("{}/vm.mem", plan.snapshot_dir));
    assert_eq!(plan.socket_path, "/tmp/fc-t1.sock");

    manager.stop_tenant("t1").unwrap();
    assert!(matches!(manager.snapshot_tenant_plan("t1"), Err(CoreError::InvalidState)));
    assert!(matches!(manager.snapshot_tenant_plan("nope"), Err(CoreError::NotFound)));
}

#[test]
fn test_env_file_content() {
    let vars = vec![
        (String::from("A"), String::from("1")),
        (String::from("B"), String::from("two words")),
    ];
    let content = microclaw_core::manager::env_file_content(&vars);
    assert_eq!(content, "A=\"1\"\nB=\"two words\"\n");
    let empty: Vec<(String, String)> = vec![];
    assert_eq!(microclaw_core::manager::env_file_content(&empty), "");
}

#[test]
fn test_provision_env_vars_injects_skip_flag() {
    let mut req = request("t1", Tier::Pro);
    req.skip_tool_approval = true;
    let vars = microclaw_core::manager::provision_env_vars(&req);
    assert_eq!(vars.len(), 2);
    assert_eq!(vars[1].0, "MICROCLAW_SKIP_TOOL_APPROVAL");
    assert_eq!(vars[1].1, "true");
    let req2 = request("t1", Tier::Pro);
    let vars2 = microclaw_core::manager::provision_env_vars(&req2);
    assert_eq!(vars2.len(), 1);
    assert_eq!(vars2[0].0, "KEY");
}

#[test]
fn test_tier_resources_and_api_names() {
    assert_eq!(Tier::Free.vcpu(), 1);
    assert_eq!(Tier::Free.memory_mb(), 128);
    assert_eq!(Tier::Free.disk_mb(), 128);
    assert_eq!(Tier::Pro.vcpu(), 1);
    assert_eq!(Tier::Pro.memory_mb(), 256);
    assert_eq!(Tier::Pro.disk_mb(), 512);
    assert_eq!(Tier::Team.vcpu(), 2);
    assert_eq!(Tier::Team.memory_mb(), 512);
    assert_eq!(Tier::Team.disk_mb(), 2048);
    assert_eq!(Tier::Enterprise.vcpu(), 4);
    assert_eq!(Tier::Enterprise.memory_mb(), 1024);
    assert_eq!(Tier::Enterprise.disk_mb(), 8192);

    assert_eq!(microclaw_core::tenant::parse_api_tier("free"), Some(Tier::Free));
    assert_eq!(microclaw_core::tenant::parse_api_tier("pro"), Some(Tier::Pro));
    assert_eq!(microclaw_core::tenant::parse_api_tier("team"), Some(Tier::Team));
    assert_eq!(microclaw_core::tenant::parse_api_tier("enterprise"), Some(Tier::Enterprise));
    assert_eq!(microclaw_core::tenant::parse_api_tier("Free"), None);
    assert_eq!(microclaw_core::tenant::parse_api_tier("gold"), None);
}

#[test]
fn test_start_plan_golden_and_boot() {
    let path = scratch_db_path("startplan");
    let mut manager = new_manager(&path);
    create(&mut manager, "t1", Tier::Team, 1);
    manager.stop_tenant("t1").unwrap();

    match manager.start_tenant_check("t1", true).unwrap() {
        microclaw_core::manager::StartPlan::Restore { socket_path, snapshot_path, mem_path } => {
            assert_eq!(socket_path, "/tmp/fc-t1.sock");
            assert_eq!(snapshot_path, "/data/snapshots/golden/vm.snap");
            assert_eq!(mem_path, "/data/snapshots/golden/vm.mem");
        }
        _ => panic!("expected a restore plan"),
    }
    match manager.start_tenant_check("t1", false).unwrap() {
        microclaw_core::manager::StartPlan::Boot { rootfs, data_vol, vcpu, memory_mb, vm_ip, .. } => {
            assert_eq!(rootfs, "/data/tenants/t1/rootfs.ext4");
            assert_eq!(data_vol, "/data/tenants/t1/data.ext4");
            assert_eq!(vcpu, 2);
            assert_eq!(memory_mb, 512);
            assert_eq!(vm_ip, "172.16.1.2");
        }
        _ => panic!("expected a boot plan"),
    }
    manager.start_tenant_commit("t1", 555).unwrap();
    let t = manager.get_tenant("t1").unwrap();
    assert_eq!(t.status, TenantStatus::Running);
    assert_eq!(t.vm_pid, Some(555));
}
