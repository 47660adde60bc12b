use steamos_manager::gpu::{
    gpu_performance_level_driver, gpu_power_profile_driver, AmdgpuPerformanceLevel,
    AmdgpuPerformanceLevelDriver, AmdgpuPowerProfile, AmdgpuPowerProfileDriver, DrmEntry, GpuError,
    GpuPerformanceLevel, GpuPerformanceLevelDriver, GpuPerformanceLevelDriverType, GpuPowerProfile,
    GpuPowerProfileDriverType, IntelGpuConfig, IntelGpuPerformanceLevelDriver,
    IntelPerformanceLevel, NoGpuDriver,
};
use steamos_manager::hardware::RangeConfig;

const PROFILES: &str = " 1 3D_FULL_SCREEN
 3          VIDEO*
 4             VR
 5        COMPUTE
 6         CUSTOM
 8         CAPPED
 9       UNCAPPED";

fn amdgpu(level: AmdgpuPerformanceLevel) -> GpuPerformanceLevel {
    GpuPerformanceLevel::Amdgpu(level)
}

fn intel(level: IntelPerformanceLevel) -> GpuPerformanceLevel {
    GpuPerformanceLevel::Intel(level)
}

fn range(min: u32, max: u32) -> RangeConfig {
    RangeConfig { min, max }
}

fn clocks(mhz: u32) -> String {
    format!(
        "OD_SCLK:
0:       {mhz}Mhz
1:       {mhz}Mhz
OD_RANGE:
SCLK:     200Mhz       1600Mhz
CCLK:    1400Mhz       3500Mhz
CCLK_RANGE in Core0:
0:       1400Mhz
1:       3500Mhz\n"
    )
}

#[test]
fn test_get_gpu_performance_level() {
    let driver = AmdgpuPerformanceLevelDriver {};
    for (contents, level) in [
        ("auto\n", AmdgpuPerformanceLevel::Auto),
        ("low\n", AmdgpuPerformanceLevel::Low),
        ("high\n", AmdgpuPerformanceLevel::High),
        ("manual\n", AmdgpuPerformanceLevel::Manual),
        ("profile_peak\n", AmdgpuPerformanceLevel::ProfilePeak),
    ] {
        assert_eq!(
            driver.get_performance_level(contents).unwrap(),
            amdgpu(level)
        );
    }
    assert!(driver.get_performance_level("nothing\n").is_err());
}

#[test]
fn test_set_gpu_performance_level() {
    let driver = AmdgpuPerformanceLevelDriver {};
    for (level, text) in [
        (AmdgpuPerformanceLevel::Auto, "auto"),
        (AmdgpuPerformanceLevel::Low, "low"),
        (AmdgpuPerformanceLevel::High, "high"),
        (AmdgpuPerformanceLevel::Manual, "manual"),
        (AmdgpuPerformanceLevel::ProfilePeak, "profile_peak"),
    ] {
        assert_eq!(
            driver.set_performance_level(amdgpu(level)).unwrap().trim(),
            text
        );
    }
    assert_eq!(
        driver.set_performance_level(intel(IntelPerformanceLevel::Auto)),
        Err(GpuError::NotAmdgpu)
    );
}

#[test]
fn test_get_amdgpu_gpu_clocks() {
    let driver = AmdgpuPerformanceLevelDriver {};
    assert_eq!(driver.get_clocks("").unwrap(), 0);
    assert_eq!(driver.get_clocks(&clocks(1600)).unwrap(), 1600);
}

#[test]
fn amdgpu_clocks_edges() {
    let driver = AmdgpuPerformanceLevelDriver {};
    // no line feed behind the heading
    assert_eq!(driver.get_clocks("OD_SCLK:"), Ok(0));
    assert_eq!(driver.get_clocks("OD_SCLK:\n"), Ok(0));
    assert_eq!(driver.get_clocks("OD_SCLK:\n0: 700Mhz"), Ok(700));
    assert_eq!(driver.get_clocks("OD_SCLK:\n0: 700MhzMhz"), Ok(700));
    assert_eq!(driver.get_clocks("OD_SCLK:\n0: 700\n"), Ok(0));
    assert_eq!(
        driver.get_clocks("OD_SCLK:\n0: xMhz\n"),
        Err(GpuError::BadNumber)
    );
}

#[test]
fn test_set_amdgpu_gpu_clocks() {
    let driver = AmdgpuPerformanceLevelDriver {};
    assert_eq!(driver.set_clocks(200).concat(), "s 0 200\ns 1 200\nc\n");
    assert_eq!(driver.set_clocks(1600).concat(), "s 0 1600\ns 1 1600\nc\n");
}

#[test]
fn test_get_amdgpu_gpu_clocks_range() {
    let driver = AmdgpuPerformanceLevelDriver {};
    assert_eq!(driver.get_clocks_range(None, ""), Err(GpuError::NoClocks));
    let contents = "0: 200Mhz *
1: 1100Mhz
2: 1600Mhz";
    assert_eq!(
        driver.get_clocks_range(None, contents).unwrap(),
        range(200, 1600)
    );
    let contents = "0: 1600Mhz *
1: 200Mhz
2: 1100Mhz";
    assert_eq!(
        driver.get_clocks_range(None, contents).unwrap(),
        range(200, 1600)
    );
}

#[test]
fn amdgpu_clocks_range_edges() {
    let driver = AmdgpuPerformanceLevelDriver {};
    assert_eq!(
        driver.get_clocks_range(Some(range(300, 400)), "0: 200Mhz"),
        Ok(range(300, 400))
    );
    assert_eq!(
        driver.get_clocks_range(None, "0: 4294967296Mhz"),
        Err(GpuError::BadNumber)
    );
    // lines of another form are passed over
    assert_eq!(
        driver.get_clocks_range(None, "0:  200Mhz\n\u{2003}1: 300Mhz\nx 2: 900Mhz"),
        Ok(range(300, 300))
    );
}

#[test]
fn amdgpu_gpu_power_profile_roundtrip() {
    for (n, profile) in [
        (1u32, AmdgpuPowerProfile::FullScreen),
        (3, AmdgpuPowerProfile::Video),
        (4, AmdgpuPowerProfile::VR),
        (5, AmdgpuPowerProfile::Compute),
        (6, AmdgpuPowerProfile::Custom),
        (8, AmdgpuPowerProfile::Capped),
        (9, AmdgpuPowerProfile::Uncapped),
    ] {
        assert_eq!(AmdgpuPowerProfile::try_from(n).unwrap(), profile);
        assert_eq!(profile.to_u32(), n);
    }
    for (text, profile) in [
        ("3d_full_screen", AmdgpuPowerProfile::FullScreen),
        ("video", AmdgpuPowerProfile::Video),
        ("vr", AmdgpuPowerProfile::VR),
        ("compute", AmdgpuPowerProfile::Compute),
        ("custom", AmdgpuPowerProfile::Custom),
        ("capped", AmdgpuPowerProfile::Capped),
        ("uncapped", AmdgpuPowerProfile::Uncapped),
    ] {
        assert_eq!(AmdgpuPowerProfile::from_str(text).unwrap(), profile);
        assert_eq!(profile.to_string(), text);
    }
    assert!(AmdgpuPowerProfile::try_from(0).is_err());
    assert!(AmdgpuPowerProfile::try_from(2).is_err());
    assert!(AmdgpuPowerProfile::try_from(10).is_err());
    assert!(AmdgpuPowerProfile::from_str("fullscreen").is_err());
}

#[test]
fn amdgpu_gpu_performance_level_roundtrip() {
    for (text, level) in [
        ("auto", AmdgpuPerformanceLevel::Auto),
        ("low", AmdgpuPerformanceLevel::Low),
        ("high", AmdgpuPerformanceLevel::High),
        ("manual", AmdgpuPerformanceLevel::Manual),
        ("profile_peak", AmdgpuPerformanceLevel::ProfilePeak),
    ] {
        assert_eq!(AmdgpuPerformanceLevel::from_str(text).unwrap(), level);
        assert_eq!(level.to_string(), text);
    }
    assert!(AmdgpuPerformanceLevel::from_str("peak_performance").is_err());
}

fn named(profiles: &[(u32, &str)]) -> Vec<(u32, String)> {
    profiles.iter().map(|(n, s)| (*n, s.to_string())).collect()
}

#[test]
fn read_amdgpu_power_profiles() {
    let driver = AmdgpuPowerProfileDriver {};
    assert_eq!(
        driver
            .get_available_power_profiles(PROFILES, "unknown")
            .unwrap(),
        named(&[
            (1, "3D_FULL_SCREEN"),
            (3, "VIDEO"),
            (4, "VR"),
            (5, "COMPUTE"),
            (6, "CUSTOM"),
            (8, "CAPPED"),
            (9, "UNCAPPED"),
        ])
    );
    assert_eq!(
        driver
            .get_available_power_profiles(PROFILES, "steam_deck")
            .unwrap(),
        named(&[(8, "CAPPED"), (9, "UNCAPPED")])
    );
}

#[test]
fn read_amdgpu_unknown_power_profiles() {
    let driver = AmdgpuPowerProfileDriver {};
    let contents = " 1 3D_FULL_SCREEN
 2            CGA
 3          VIDEO*
 4             VR
 5        COMPUTE
 6         CUSTOM
 8         CAPPED
 9       UNCAPPED";
    assert_eq!(
        driver
            .get_available_power_profiles(contents, "unknown")
            .unwrap(),
        named(&[
            (1, "3D_FULL_SCREEN"),
            (2, "CGA"),
            (3, "VIDEO"),
            (4, "VR"),
            (5, "COMPUTE"),
            (6, "CUSTOM"),
            (8, "CAPPED"),
            (9, "UNCAPPED"),
        ])
    );
    assert_eq!(
        driver
            .get_available_power_profiles(contents, "steam_deck")
            .unwrap(),
        named(&[(8, "CAPPED"), (9, "UNCAPPED")])
    );
}

#[test]
fn power_profile_number_too_large() {
    let driver = AmdgpuPowerProfileDriver {};
    assert_eq!(
        driver.get_available_power_profiles("4294967296 VIDEO", "unknown"),
        Err(GpuError::BadNumber)
    );
}

#[test]
fn read_amdgpu_power_profile() {
    let driver = AmdgpuPowerProfileDriver {};
    assert_eq!(
        driver.get_power_profile(PROFILES).unwrap(),
        GpuPowerProfile::Amdgpu(AmdgpuPowerProfile::Video)
    );
}

#[test]
fn read_amdgpu_no_power_profile() {
    let driver = AmdgpuPowerProfileDriver {};
    let contents = " 1 3D_FULL_SCREEN
 3          VIDEO
 4             VR
 5        COMPUTE
 6         CUSTOM
 8         CAPPED
 9       UNCAPPED";
    assert_eq!(
        driver.get_power_profile(contents),
        Err(GpuError::NoCurrentProfile)
    );
}

#[test]
fn read_amdgpu_unknown_power_profile() {
    let driver = AmdgpuPowerProfileDriver {};
    let contents = " 1 3D_FULL_SCREEN
 2            CGA*
 3          VIDEO
 4             VR
 5        COMPUTE
 6         CUSTOM
 8         CAPPED
 9       UNCAPPED";
    assert_eq!(
        driver.get_power_profile(contents),
        Err(GpuError::UnknownProfile)
    );
}

#[test]
fn power_profile_is_written_as_a_number() {
    let driver = AmdgpuPowerProfileDriver {};
    assert_eq!(
        driver.set_power_profile(GpuPowerProfile::Amdgpu(AmdgpuPowerProfile::Uncapped)),
        "9"
    );
    assert_eq!(
        driver.power_profile_from_str("vr").unwrap(),
        GpuPowerProfile::Amdgpu(AmdgpuPowerProfile::VR)
    );
    assert!(driver.power_profile_from_str("VR").is_err());
}

#[test]
fn available_performance_levels() {
    let driver = AmdgpuPerformanceLevelDriver {};
    assert_eq!(
        driver.get_available_performance_levels(true),
        vec![
            amdgpu(AmdgpuPerformanceLevel::Auto),
            amdgpu(AmdgpuPerformanceLevel::Low),
            amdgpu(AmdgpuPerformanceLevel::High),
            amdgpu(AmdgpuPerformanceLevel::Manual),
            amdgpu(AmdgpuPerformanceLevel::ProfilePeak),
        ]
    );
    assert!(driver.get_available_performance_levels(false).is_empty());
}

fn drm(name: &str, has_i915: bool, has_xe: bool) -> DrmEntry {
    DrmEntry {
        name: Some(name.to_string()),
        has_i915,
        has_xe,
    }
}

fn i915() -> IntelGpuPerformanceLevelDriver {
    IntelGpuPerformanceLevelDriver::new(&vec![drm("card0", true, false)]).unwrap()
}

fn xe() -> IntelGpuPerformanceLevelDriver {
    IntelGpuPerformanceLevelDriver::new(&vec![drm("card0", false, true)]).unwrap()
}

#[test]
fn intel_driver_selection() {
    assert_eq!(i915().config, IntelGpuConfig::I915);
    assert_eq!(xe().config, IntelGpuConfig::Xe);
    assert!(IntelGpuPerformanceLevelDriver::new(&vec![drm("card0", false, false)]).is_none());
    let entries = vec![
        DrmEntry {
            name: None,
            has_i915: true,
            has_xe: false,
        },
        drm("renderD128", true, false),
        drm("card1", true, true),
    ];
    let driver = IntelGpuPerformanceLevelDriver::new(&entries).unwrap();
    assert_eq!(driver.card, 2);
    assert_eq!(driver.config, IntelGpuConfig::I915);
    assert_eq!(driver.config.min_freq(), "device/gt_min_freq_mhz");
    assert_eq!(xe().config.range_max(), "device/tile0/gt0/freq0/rpa_freq");
}

#[test]
fn test_get_intel_i915_gpu_performance_level_auto() {
    let driver = i915();
    let min = driver.read_freq("100").unwrap();
    let max = driver.read_freq("1100").unwrap();
    assert_eq!(
        driver.get_performance_level(min, max),
        intel(IntelPerformanceLevel::Auto)
    );
}

#[test]
fn test_get_intel_i915_gpu_performance_level_manual() {
    let driver = i915();
    let min = driver.read_freq("600").unwrap();
    let max = driver.read_freq("600").unwrap();
    assert_eq!(
        driver.get_performance_level(min, max),
        intel(IntelPerformanceLevel::Manual)
    );
}

#[test]
fn test_set_intel_i915_gpu_performance_level() {
    let writes = i915()
        .set_performance_level(intel(IntelPerformanceLevel::Manual), 100, 1100)
        .unwrap();
    assert_eq!(writes.min_freq, writes.max_freq);
}

#[test]
fn test_get_intel_xe_gpu_performance_level_auto() {
    let driver = xe();
    let min = driver.read_freq("300").unwrap();
    let max = driver.read_freq("1200").unwrap();
    assert_eq!(
        driver.get_performance_level(min, max),
        intel(IntelPerformanceLevel::Auto)
    );
}

#[test]
fn test_get_intel_xe_gpu_performance_level_manual() {
    let driver = xe();
    let min = driver.read_freq("800").unwrap();
    let max = driver.read_freq("800").unwrap();
    assert_eq!(
        driver.get_performance_level(min, max),
        intel(IntelPerformanceLevel::Manual)
    );
}

#[test]
fn test_set_intel_xe_gpu_performance_level() {
    let writes = xe()
        .set_performance_level(intel(IntelPerformanceLevel::Manual), 300, 1200)
        .unwrap();
    assert_eq!(writes.min_freq, writes.max_freq);
}

#[test]
fn test_intel_gpu_clocks_range() {
    let driver = i915();
    assert_eq!(
        driver.get_clocks_range(None, 100, 1100).unwrap(),
        range(100, 1100)
    );
    assert_eq!(driver.get_clocks("100").unwrap(), 100);
}

#[test]
fn test_intel_gpu_set_clocks() {
    let driver = i915();
    let manual = driver
        .set_performance_level(intel(IntelPerformanceLevel::Manual), 100, 1100)
        .unwrap();
    let min = driver.read_freq(&manual.min_freq).unwrap();
    let max = driver.read_freq(&manual.max_freq).unwrap();
    let writes = driver.set_clocks(min, max, 800).unwrap();
    assert_eq!(driver.read_freq(&writes.min_freq), Ok(800));
    assert_eq!(driver.read_freq(&writes.max_freq), Ok(800));
    // the level stays as it is
    assert_eq!(
        driver.get_performance_level(800, 800),
        intel(IntelPerformanceLevel::Manual)
    );
}

#[test]
fn intel_edges() {
    let driver = xe();
    assert!(driver.set_clocks(300, 1200, 800).is_none());
    assert_eq!(
        driver.get_clocks_range(None, 1200, 300),
        Err(GpuError::BadRange)
    );
    assert_eq!(
        driver.get_clocks_range(Some(range(1, 2)), 1200, 300),
        Ok(range(1, 2))
    );
    assert_eq!(driver.read_freq("fast"), Err(GpuError::BadNumber));
    assert!(matches!(
        driver.set_performance_level(amdgpu(AmdgpuPerformanceLevel::Low), 300, 1200),
        Err(GpuError::NotIntel)
    ));
    let auto = driver
        .set_performance_level(intel(IntelPerformanceLevel::Auto), 300, 1200)
        .unwrap();
    assert_eq!(auto.min_freq, "300");
    assert_eq!(auto.max_freq, "1200");
    assert_eq!(driver.write_freq(550), "550");
    assert_eq!(
        driver.performance_level_from_str("manual").unwrap(),
        intel(IntelPerformanceLevel::Manual)
    );
    assert!(driver.performance_level_from_str("Manual").is_err());
}

#[test]
fn driver_selection() {
    assert!(gpu_power_profile_driver(Some(GpuPowerProfileDriverType::Amdgpu)).is_ok());
    assert_eq!(
        gpu_power_profile_driver(None).err(),
        Some(NoGpuDriver::NotConfigured)
    );
    let entries = vec![drm("card0", true, false)];
    assert!(matches!(
        gpu_performance_level_driver(Some(GpuPerformanceLevelDriverType::Amdgpu), &entries),
        Ok(GpuPerformanceLevelDriver::Amdgpu(_))
    ));
    assert!(matches!(
        gpu_performance_level_driver(Some(GpuPerformanceLevelDriverType::Intel), &entries),
        Ok(GpuPerformanceLevelDriver::Intel(_))
    ));
    assert_eq!(
        gpu_performance_level_driver(Some(GpuPerformanceLevelDriverType::Intel), &vec![]).err(),
        Some(NoGpuDriver::NoCard)
    );
    assert_eq!(
        gpu_performance_level_driver(None, &entries).err(),
        Some(NoGpuDriver::NotConfigured)
    );
}

#[test]
fn gpu_messages() {
    assert_eq!(
        GpuError::UnknownProfile.message().unwrap(),
        "Unable to parse value for GPU power profile: Matching variant not found"
    );
    assert_eq!(
        GpuError::NoCurrentProfile.message().unwrap(),
        "Unable to determine current GPU power profile"
    );
    assert_eq!(GpuError::BadNumber.message(), None);
    assert_eq!(
        GpuError::NoClocks.message().unwrap(),
        "Could not read any clocks"
    );
    assert_eq!(
        GpuError::NotAmdgpu.message().unwrap(),
        "This is not an amdgpu-compatible performance level"
    );
    assert_eq!(
        GpuError::NotIntel.message().unwrap(),
        "This is not an Intel-compatible performance level"
    );
    assert_eq!(
        GpuError::BadRange.message().unwrap(),
        "Invalid GPU frequency range"
    );
}
