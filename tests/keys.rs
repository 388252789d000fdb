use laps::job::new_token;
use laps::types::{JobSubmission, ModuleInfo, Vector};
use laps::util::{
    create_redis_backend_key, create_redis_key, generate_salt, get_admin_key, get_job_cache_key,
    get_job_key, get_job_mapping_key, get_module_cache_pattern, get_module_log_key,
    get_module_work_key, get_module_workers_key, get_registered_module_workers_key,
    get_session_key,
};

fn dummy() -> ModuleInfo {
    ModuleInfo::new("dummy", "0.0.0")
}

#[test]
fn general_and_backend_keys() {
    assert_eq!(create_redis_key("mapdata"), "laps.mapdata");
    assert_eq!(create_redis_backend_key("registered_modules"), "laps.backend.registered_modules");
    assert_eq!(create_redis_key(""), "laps.");
}

#[test]
fn job_keys() {
    assert_eq!(get_job_key(1), "laps.backend.job_result.1");
    assert_eq!(get_job_key(0), "laps.backend.job_result.0");
    assert_eq!(get_job_key(1234567), "laps.backend.job_result.1234567");
    assert_eq!(get_job_key(-42), "laps.backend.job_result.-42");
    assert_eq!(get_job_key(i32::MIN), "laps.backend.job_result.-2147483648");
    assert_eq!(get_job_key(i32::MAX), "laps.backend.job_result.2147483647");
    assert_eq!(get_job_mapping_key("abc"), "laps.backend.job_mapping.abc");
    assert_eq!(get_session_key("tok"), "laps.backend.sessions.tok");
}

#[test]
fn admin_key_ignores_case() {
    assert_eq!(get_admin_key("Test-Admin"), "laps.backend.admin.admins.test-admin");
    assert_eq!(get_admin_key("test-admin"), get_admin_key("TEST-ADMIN"));
}

#[test]
fn module_keys() {
    let m = dummy();
    assert_eq!(get_module_work_key(&m), "laps.runner.dummy:0.0.0.work");
    assert_eq!(get_module_log_key(&m), "laps.backend.moduleLogs.dummy:0.0.0");
    assert_eq!(get_module_workers_key(&m), "laps.backend.module-workers.dummy:0.0.0");
    assert_eq!(
        get_registered_module_workers_key(&m),
        "laps.backend.module-workers.dummy:0.0.0.active"
    );
}

#[test]
fn cache_keys_start_with_module_pattern() {
    let job = JobSubmission {
        start: Vector { x: 1, y: 2 },
        stop: Vector { x: 3, y: 1 },
        map_id: 1,
        algorithm: dummy(),
    };
    let key = get_job_cache_key(&job);
    assert_eq!(key, "laps.backend.cache.dummy:0%d0%d0.1.1,2.3,1");
    let pattern = get_module_cache_pattern(&dummy());
    assert_eq!(pattern, "laps.backend.cache.dummy:0%d0%d0.*");
    assert!(key.starts_with(&pattern[..pattern.len() - 1]));

    let swapped = JobSubmission {
        start: Vector { x: 3, y: 1 },
        stop: Vector { x: 1, y: 2 },
        map_id: 1,
        algorithm: dummy(),
    };
    assert_ne!(get_job_cache_key(&swapped), key);

    let negative_map = JobSubmission { map_id: -4, ..swapped };
    assert_eq!(get_job_cache_key(&negative_map), "laps.backend.cache.dummy:0%d0%d0.-4.3,1.1,2");
}

#[test]
fn cache_keys_tell_modules_apart() {
    let job = |name: &str, version: &str| JobSubmission {
        start: Vector { x: 1, y: 1 },
        stop: Vector { x: 2, y: 2 },
        map_id: 1,
        algorithm: ModuleInfo::new(name, version),
    };
    let a = get_job_cache_key(&job("a:b", "c"));
    let b = get_job_cache_key(&job("a", "b:c"));
    assert_ne!(a, b);
    assert_eq!(a, "laps.backend.cache.a%cb:c.1.1,1.2,2");
    assert_eq!(b, "laps.backend.cache.a:b%cc.1.1,1.2,2");

    //The pattern of `x:1` does not reach the keys of `x:1.2`.
    let pattern = get_module_cache_pattern(&ModuleInfo::new("x", "1"));
    let other = get_job_cache_key(&job("x", "1.2"));
    assert!(!other.starts_with(&pattern[..pattern.len() - 1]));

    //Pattern characters and the escape character are escaped too.
    let wild = get_module_cache_pattern(&ModuleInfo::new("m*?[]\\%", "1"));
    assert_eq!(wild, "laps.backend.cache.m%s%q%o%e%b%p:1.*");
}

#[test]
fn salts_and_tokens() {
    let salt = generate_salt();
    assert_eq!(salt.len(), 8);
    let a = new_token();
    let b = new_token();
    assert_eq!(a.len(), 86);
    assert!(a.chars().all(|c| c.is_ascii_alphanumeric() || c == '-' || c == '_'));
    assert!(!a.contains('='));
    assert_ne!(a, b);
}
