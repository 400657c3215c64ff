use libmarathon::render::{adreno_model_fits, get_adreno_model, get_mali_driver_version, RenderAdapterInfo};

fn info(name: &str, driver: &str) -> RenderAdapterInfo {
    RenderAdapterInfo { name: name.to_string(), driver_info: driver.to_string() }
}

#[test]
fn adreno_model_reads_digits_after_prefix() {
    assert_eq!(get_adreno_model(&info("Adreno (TM) 642L", ""), true), Some(642));
    assert_eq!(get_adreno_model(&info("Adreno (TM) 730", ""), true), Some(730));
    assert_eq!(get_adreno_model(&info("Adreno (TM) x", ""), true), Some(0));
    assert_eq!(get_adreno_model(&info("Mali-G78", ""), true), None);
    assert_eq!(get_adreno_model(&info("Adreno (TM) 642L", ""), false), None);
    assert!(adreno_model_fits(&info("Adreno (TM) 642L", "")));
    assert!(!adreno_model_fits(&info("Adreno (TM) 99999999999", "")));
}

#[test]
fn mali_driver_version_reads_release() {
    let gpu = info("Mali-G78 MC24", "v1.r32p1-01eac0");
    assert_eq!(get_mali_driver_version(&gpu, true), Some(32));
    assert_eq!(get_mali_driver_version(&gpu, false), None);
    assert_eq!(get_mali_driver_version(&info("Adreno (TM) 642L", "v1.r32p1"), true), None);
    assert_eq!(get_mali_driver_version(&info("Mali-G78", "no version"), true), None);
    assert_eq!(get_mali_driver_version(&info("Mali-G78", "v1.rp"), true), None);
    assert_eq!(get_mali_driver_version(&info("Mali-G78", "v1.r+7p"), true), Some(7));
    assert_eq!(get_mali_driver_version(&info("Mali-G78", "v1.r12"), true), None);
}
