use shadow_os::adapter::{adapter_is_software, AdapterInfo, DeviceType};

fn info(name: &str, device_type: DeviceType, driver: &str, driver_info: &str) -> AdapterInfo {
    AdapterInfo {
        name: name.to_string(),
        device_type,
        driver: driver.to_string(),
        driver_info: driver_info.to_string(),
    }
}

#[test]
fn cpu_adapters_are_software() {
    assert!(adapter_is_software(&info("Some Device", DeviceType::Cpu, "", "")));
}

#[test]
fn llvmpipe_name_marks_software() {
    assert!(adapter_is_software(&info(
        "llvmpipe (LLVM 15.0.7, 256 bits)",
        DeviceType::Other,
        "llvmpipe",
        "Mesa 23.0"
    )));
}

#[test]
fn marks_match_in_any_capitals_and_any_field() {
    assert!(adapter_is_software(&info("SwiftShader Device", DeviceType::IntegratedGpu, "", "")));
    assert!(adapter_is_software(&info("GPU", DeviceType::VirtualGpu, "LavaPipe", "")));
    assert!(adapter_is_software(&info("GPU", DeviceType::Other, "", "Mesa SWRAST")));
    assert!(adapter_is_software(&info("Microsoft Basic Render Driver (Software)", DeviceType::Other, "", "")));
}

#[test]
fn hardware_adapters_are_not_software() {
    assert!(!adapter_is_software(&info(
        "NVIDIA GeForce RTX 3080",
        DeviceType::DiscreteGpu,
        "NVIDIA",
        "535.104"
    )));
    assert!(!adapter_is_software(&info("Adreno (TM) 740", DeviceType::IntegratedGpu, "", "")));
}

#[test]
fn marks_do_not_match_across_fields() {
    assert!(!adapter_is_software(&info("soft", DeviceType::Other, "ware", "")));
}
