use oxyde::deploy::{
    generate_unity_agent_script, generate_unity_manager_script, generate_unity_scene_script,
    generate_unreal_agent_header, generate_unreal_oxyde_header, generate_unreal_oxyde_source,
    generate_wasm_demo_html, generate_wasm_js_wrapper, unity_config_filename,
    unity_controller_filename, unreal_config_filename, wasm_config_filename,
};

#[test]
fn unreal_sources() {
    let h = generate_unreal_oxyde_header();
    assert!(h.starts_with("// Copyright Epic Games, Inc. All Rights Reserved.\n\n#pragma once"));
    assert!(h.contains("class OXYDE_API AOxydeNPC : public ACharacter"));
    let s = generate_unreal_oxyde_source();
    assert!(s.contains("#include \"OxydeNPC.h\""));
    assert!(s.ends_with("    return AgentState.Role;\n}\n"));
}

#[test]
fn wasm_wrapper() {
    let w = generate_wasm_js_wrapper();
    assert!(w.starts_with("// Oxyde WebAssembly SDK wrapper\n"));
    assert!(w.ends_with("export default oxyde;\n"));
}

#[test]
fn agent_types_enumerate_agents_without_spaces() {
    let names = vec!["Town Guard".to_string(), "Old Merchant Bob".to_string()];
    let h = generate_unreal_agent_header(&names);
    assert!(h.contains("enum class EOxydeAgentType : uint8\n{\n    TownGuardAgent,\n    OldMerchantBobAgent,\n\n};"));
    assert!(h.contains("struct FOxydeAgentState\n{\n    GENERATED_BODY()"));
    assert!(h.ends_with("FString LastResponse;\n};\n"));
}

#[test]
fn unity_scripts_and_file_names() {
    let manager = generate_unity_manager_script();
    assert!(manager.contains("public class OxydeAgentManager : MonoBehaviour\n    {"));
    assert!(!manager.contains("{{"));
    let scene = generate_unity_scene_script();
    assert!(scene.contains("Debug.Log($\"Spawned {Mathf.Min(agentPrefabs.Length, positions.Length)} agents\");"));
    let script = generate_unity_agent_script("Shopkeeper", "Old Bob", "agent_0.json");
    assert!(script.contains("/// Controller for the Shopkeeper agent"));
    assert!(script.contains("public class OldBobController : OxydeAgent"));
    assert!(script.contains("\"AgentConfigs/agent_0.json\""));
    assert!(script.contains("AgentName = \"Old Bob\";"));
    assert_eq!(unity_config_filename(12), "agent_12.json");
    assert_eq!(unity_controller_filename("Old Bob"), "OldBobController.cs");
}

#[test]
fn wasm_demo_page_and_file_names() {
    let names = vec!["Old Bob".to_string(), "Guard".to_string()];
    let html = generate_wasm_demo_html(&names);
    assert!(html.contains(
        "<button onclick=\"loadAgent('configs/old_bob.json')\">Load Old Bob</button><button onclick=\"loadAgent('configs/guard.json')\">Load Guard</button>"
    ));
    assert!(html.ends_with("</html>\n"));
    assert_eq!(wasm_config_filename("Old Bob"), "old_bob.json");
    assert_eq!(unreal_config_filename("Old Bob"), "Agent_OldBob.json");
}
