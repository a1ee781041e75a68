//! Engine integration sources that the deployment tool writes next to the
//! agent configurations, and the names of the files it writes: Unity
//! scripts, the Unreal Engine NPC class and agent types, and the
//! WebAssembly wrapper and demo page.
use vstd::prelude::*;

use crate::text::{replace_all, replace_str, str_lowercase, to_lowercase};
use crate::utils::{decimal, push_decimal};

verus! {

/// Header of the Unreal Engine NPC class that drives an Oxyde agent.
pub const UNREAL_OXYDE_HEADER: &'static str = r#"// Copyright Epic Games, Inc. All Rights Reserved.

#pragma once

#include "CoreMinimal.h"
#include "GameFramework/Character.h"
#include "OxydeAgentTypes.h"
#include "OxydeNPC.generated.h"

UCLASS()
class OXYDE_API AOxydeNPC : public ACharacter
{
    GENERATED_BODY()

public:
    // Sets default values for this character's properties
    AOxydeNPC();

    // Called every frame
    virtual void Tick(float DeltaTime) override;

    // Called to bind functionality to input
    virtual void SetupPlayerInputComponent(class UInputComponent* PlayerInputComponent) override;

    // Initialize the NPC agent
    UFUNCTION(BlueprintCallable, Category = "Oxyde")
    bool InitializeAgent(FString ConfigPath);

    // Process input for the agent
    UFUNCTION(BlueprintCallable, Category = "Oxyde")
    FString ProcessInput(FString Input);

    // Update agent context
    UFUNCTION(BlueprintCallable, Category = "Oxyde")
    void UpdateContext(FString ContextJSON);

    // Get agent name
    UFUNCTION(BlueprintPure, Category = "Oxyde")
    FString GetAgentName() const;

    // Get agent role
    UFUNCTION(BlueprintPure, Category = "Oxyde")
    FString GetAgentRole() const;

protected:
    // Called when the game starts or when spawned
    virtual void BeginPlay() override;

    // Agent configuration
    UPROPERTY(EditDefaultsOnly, BlueprintReadOnly, Category = "Oxyde")
    FString ConfigPath;

    // Agent state
    UPROPERTY(VisibleAnywhere, BlueprintReadOnly, Category = "Oxyde")
    FOxydeAgentState AgentState;

    // Dialogue component
    UPROPERTY(VisibleAnywhere, BlueprintReadOnly, Category = "Oxyde")
    class UDialogueComponent* DialogueComponent;

private:
    // Agent ID returned by the Oxyde SDK
    FString AgentId;

    // Generate context JSON from the current state
    FString GenerateContextJSON();
};
"#;

/// Source of the Unreal Engine NPC class that drives an Oxyde agent.
pub const UNREAL_OXYDE_SOURCE: &'static str = r#"// Copyright Epic Games, Inc. All Rights Reserved.

#include "OxydeNPC.h"
#include "OxydeUnreal.h"
#include "Components/TextRenderComponent.h"
#include "Components/WidgetComponent.h"
#include "Kismet/GameplayStatics.h"
#include "Kismet/KismetSystemLibrary.h"
#include "Json.h"

// Sets default values
AOxydeNPC::AOxydeNPC()
{
    // Set this character to call Tick() every frame
    PrimaryActorTick.bCanEverTick = true;

    // Create dialogue component
    DialogueComponent = CreateDefaultSubobject<UWidgetComponent>(TEXT("DialogueComponent"));
    DialogueComponent->SetupAttachment(RootComponent);
    DialogueComponent->SetRelativeLocation(FVector(0, 0, 100));
    DialogueComponent->SetWidgetSpace(EWidgetSpace::Screen);
    DialogueComponent->SetDrawSize(FVector2D(200, 100));
}

// Called when the game starts or when spawned
void AOxydeNPC::BeginPlay()
{
    Super::BeginPlay();
    
    // Initialize Oxyde SDK
    OxydeUnreal::Init();
    
    // Initialize agent if config path is set
    if (!ConfigPath.IsEmpty())
    {
        InitializeAgent(ConfigPath);
    }
}

// Called every frame
void AOxydeNPC::Tick(float DeltaTime)
{
    Super::Tick(DeltaTime);

    // Update agent context with player distance
    APawn* PlayerPawn = UGameplayStatics::GetPlayerPawn(GetWorld(), 0);
    if (PlayerPawn && !AgentId.IsEmpty())
    {
        float Distance = FVector::Dist(GetActorLocation(), PlayerPawn->GetActorLocation());
        
        // Create context JSON
        TSharedPtr<FJsonObject> ContextObj = MakeShareable(new FJsonObject);
        ContextObj->SetNumberField("player_distance", Distance);
        ContextObj->SetNumberField("player_x", PlayerPawn->GetActorLocation().X);
        ContextObj->SetNumberField("player_y", PlayerPawn->GetActorLocation().Y);
        ContextObj->SetNumberField("player_z", PlayerPawn->GetActorLocation().Z);
        ContextObj->SetNumberField("npc_x", GetActorLocation().X);
        ContextObj->SetNumberField("npc_y", GetActorLocation().Y);
        ContextObj->SetNumberField("npc_z", GetActorLocation().Z);
        
        FString ContextJSON;
        TSharedRef<TJsonWriter<>> Writer = TJsonWriterFactory<>::Create(&ContextJSON);
        FJsonSerializer::Serialize(ContextObj.ToSharedRef(), Writer);
        
        // Update agent context
        UpdateContext(ContextJSON);
        
        // Auto greet player if close enough
        static float LastGreetingTime = -999.0f;
        const float GreetingCooldown = 60.0f;
        
        if (Distance < 300.0f && (GetWorld()->GetTimeSeconds() - LastGreetingTime > GreetingCooldown))
        {
            FString Response = ProcessInput("");
            if (!Response.IsEmpty())
            {
                LastGreetingTime = GetWorld()->GetTimeSeconds();
                AgentState.LastResponse = Response;
                
                // Display dialogue (would use widget in real implementation)
                UE_LOG(LogTemp, Display, TEXT("%s: %s"), *AgentState.Name, *Response);
            }
        }
    }
}

// Called to bind functionality to input
void AOxydeNPC::SetupPlayerInputComponent(UInputComponent* PlayerInputComponent)
{
    Super::SetupPlayerInputComponent(PlayerInputComponent);
}

// Initialize the agent
bool AOxydeNPC::InitializeAgent(FString ConfigPath)
{
    if (ConfigPath.IsEmpty())
    {
        UE_LOG(LogTemp, Error, TEXT("Cannot initialize agent: Configuration path is empty"));
        return false;
    }

    // Check if config file exists
    if (!FPaths::FileExists(ConfigPath))
    {
        UE_LOG(LogTemp, Error, TEXT("Cannot initialize agent: Configuration file not found: %s"), *ConfigPath);
        return false;
    }

    // Create agent using Oxyde SDK
    AgentId = OxydeUnreal::CreateAgent(TCHAR_TO_UTF8(*ConfigPath));
    
    if (AgentId.IsEmpty())
    {
        UE_LOG(LogTemp, Error, TEXT("Failed to create agent from config: %s"), *ConfigPath);
        return false;
    }
    
    // Get agent info
    FString AgentJSON = OxydeUnreal::GetAgentState(TCHAR_TO_UTF8(*AgentId));
    TSharedPtr<FJsonObject> AgentObj;
    TSharedRef<TJsonReader<>> Reader = TJsonReaderFactory<>::Create(AgentJSON);
    
    if (FJsonSerializer::Deserialize(Reader, AgentObj) && AgentObj.IsValid())
    {
        AgentState.Id = AgentId;
        AgentState.Name = AgentObj->GetStringField("name");
        AgentState.Role = AgentObj->GetStringField("role");
        AgentState.State = AgentObj->GetStringField("state");
    }
    
    UE_LOG(LogTemp, Display, TEXT("Initialized agent: %s (Role: %s)"), *AgentState.Name, *AgentState.Role);
    return true;
}

// Process input for the agent
FString AOxydeNPC::ProcessInput(FString Input)
{
    if (AgentId.IsEmpty())
    {
        UE_LOG(LogTemp, Warning, TEXT("Cannot process input: Agent not initialized"));
        return FString();
    }

    // Call Oxyde SDK to process input
    FString Response = OxydeUnreal::ProcessInput(TCHAR_TO_UTF8(*AgentId), TCHAR_TO_UTF8(*Input));
    AgentState.LastResponse = Response;
    
    return Response;
}

// Update agent context
void AOxydeNPC::UpdateContext(FString ContextJSON)
{
    if (AgentId.IsEmpty() || ContextJSON.IsEmpty())
    {
        return;
    }

    // Call Oxyde SDK to update context
    OxydeUnreal::UpdateAgentContext(TCHAR_TO_UTF8(*AgentId), TCHAR_TO_UTF8(*ContextJSON));
}

// Get agent name
FString AOxydeNPC::GetAgentName() const
{
    return AgentState.Name;
}

// Get agent role
FString AOxydeNPC::GetAgentRole() const
{
    return AgentState.Role;
}
"#;

/// JavaScript wrapper around the Oxyde WebAssembly module.
pub const WASM_JS_WRAPPER: &'static str = r#"// Oxyde WebAssembly SDK wrapper

class OxydeAgent {
  constructor(id, name, role) {
    this.id = id;
    this.name = name;
    this.role = role;
    this.position = { x: 0, y: 0 };
    this.lastResponse = "";
  }
}

class OxydeSDK {
  constructor() {
    this.initialized = false;
    this.agents = new Map();
    this.wasmInstance = null;
  }

  // Initialize the Oxyde SDK
  async init() {
    if (this.initialized) return true;
    
    try {
      // Import the WASM module
      const oxyde = await import('./oxyde_bg.wasm');
      
      // Create the instance
      this.wasmInstance = new oxyde.OxydeWasm();
      
      // Initialize the SDK
      const result = this.wasmInstance.init();
      this.initialized = result;
      
      console.log("Oxyde SDK initialized:", result);
      return result;
    } catch (error) {
      console.error("Failed to initialize Oxyde SDK:", error);
      return false;
    }
  }

  // Create a new agent from configuration
  async createAgent(configPath) {
    if (!this.initialized) {
      await this.init();
    }
    
    try {
      const agentId = await this.wasmInstance.create_agent(configPath);
      
      // Fetch the configuration to get agent details
      const response = await fetch(configPath);
      const config = await response.json();
      
      // Create agent object
      const agent = new OxydeAgent(
        agentId,
        config.agent.name,
        config.agent.role
      );
      
      // Store in our registry
      this.agents.set(agentId, agent);
      
      console.log(`Created agent: ${agent.name} (${agentId})`);
      return agent;
    } catch (error) {
      console.error("Failed to create agent:", error);
      return null;
    }
  }

  // Update agent context
  async updateAgentContext(agentId, context) {
    if (!this.initialized || !this.agents.has(agentId)) {
      return false;
    }
    
    try {
      // Convert context to JSON string
      const contextJSON = JSON.stringify(context);
      
      // Update agent context
      await this.wasmInstance.update_agent(agentId, contextJSON);
      
      // Update position in our record if provided
      if (context.position) {
        const agent = this.agents.get(agentId);
        agent.position = context.position;
      }
      
      return true;
    } catch (error) {
      console.error("Failed to update agent context:", error);
      return false;
    }
  }

  // Process input for an agent
  async processInput(agentId, input) {
    if (!this.initialized || !this.agents.has(agentId)) {
      return "Agent not found";
    }
    
    try {
      // Process input through WASM
      const response = await this.wasmInstance.process_input(agentId, input);
      
      // Update last response
      const agent = this.agents.get(agentId);
      agent.lastResponse = response;
      
      return response;
    } catch (error) {
      console.error("Failed to process input:", error);
      return "Error processing input";
    }
  }

  // Get all agents
  getAgents() {
    return Array.from(this.agents.values());
  }

  // Get an agent by ID
  getAgent(agentId) {
    return this.agents.get(agentId);
  }

  // Get nearest agent to a position
  getNearestAgent(position, maxDistance = Infinity) {
    let nearest = null;
    let minDistance = maxDistance;
    
    for (const agent of this.agents.values()) {
      const dx = agent.position.x - position.x;
      const dy = agent.position.y - position.y;
      const distance = Math.sqrt(dx*dx + dy*dy);
      
      if (distance < minDistance) {
        minDistance = distance;
        nearest = agent;
      }
    }
    
    return { agent: nearest, distance: minDistance };
  }
}

// Export singleton instance
const oxyde = new OxydeSDK();
export default oxyde;
"#;

/// Generate the Unreal Engine header file of the NPC class.
pub fn generate_unreal_oxyde_header() -> (r: String)
    ensures
        r@ == UNREAL_OXYDE_HEADER@,
{
    UNREAL_OXYDE_HEADER.to_owned()
}

/// Generate the Unreal Engine source file of the NPC class.
pub fn generate_unreal_oxyde_source() -> (r: String)
    ensures
        r@ == UNREAL_OXYDE_SOURCE@,
{
    UNREAL_OXYDE_SOURCE.to_owned()
}

/// Generate the WebAssembly JavaScript wrapper.
pub fn generate_wasm_js_wrapper() -> (r: String)
    ensures
        r@ == WASM_JS_WRAPPER@,
{
    WASM_JS_WRAPPER.to_owned()
}

/// Unreal Engine agent types header, up to the agent enumeration.
pub const UNREAL_AGENT_TYPES_HEAD: &'static str = r#"// Copyright Epic Games, Inc. All Rights Reserved.

#pragma once

#include "CoreMinimal.h"
#include "OxydeAgentTypes.generated.h"

// Agent types available in the game
UENUM(BlueprintType)
enum class EOxydeAgentType : uint8
{
"#;

/// Unreal Engine agent types header, after the agent enumeration.
pub const UNREAL_AGENT_TYPES_TAIL: &'static str = r#"
};

// Agent state information
USTRUCT(BlueprintType)
struct FOxydeAgentState
{
    GENERATED_BODY()

    // Agent ID
    UPROPERTY(VisibleAnywhere, BlueprintReadOnly, Category = "Oxyde")
    FString Id;

    // Agent name
    UPROPERTY(VisibleAnywhere, BlueprintReadOnly, Category = "Oxyde")
    FString Name;

    // Agent role
    UPROPERTY(VisibleAnywhere, BlueprintReadOnly, Category = "Oxyde")
    FString Role;

    // Current state
    UPROPERTY(VisibleAnywhere, BlueprintReadOnly, Category = "Oxyde")
    FString State;

    // Last response
    UPROPERTY(VisibleAnywhere, BlueprintReadOnly, Category = "Oxyde")
    FString LastResponse;
};
"#;

/// The enumeration lines of the agent types: one per agent, its name with
/// the spaces taken out and `Agent` appended.
pub open spec fn agent_enum_values(names: Seq<Seq<char>>) -> Seq<char>
    decreases names.len(),
{
    if names.len() == 0 {
        Seq::empty()
    } else {
        agent_enum_values(names.drop_last()) + "    "@ + replace_all(names.last(), " "@, Seq::empty())
            + "Agent,\n"@
    }
}

/// Generate the Unreal Engine header that declares the agent types, for
/// agents with the given names.
pub fn generate_unreal_agent_header(agent_names: &Vec<String>) -> (r: String)
    ensures
        r@ == UNREAL_AGENT_TYPES_HEAD@ + agent_enum_values(agent_names@.map_values(|n: String| n@))
            + UNREAL_AGENT_TYPES_TAIL@,
{
    let ghost names = agent_names@.map_values(|n: String| n@);
    let mut values = String::new();
    let mut i: usize = 0;
    while i < agent_names.len()
        invariant
            i <= agent_names.len(),
            names == agent_names@.map_values(|n: String| n@),
            values@ == agent_enum_values(names.take(i as int)),
        decreases agent_names.len() - i,
    {
        proof {
            reveal_strlit(" ");
            reveal_strlit("");
            assert(""@ =~= Seq::<char>::empty());
            assert(names.take(i + 1).drop_last() =~= names.take(i as int));
            assert(names.take(i + 1).last() == agent_names@[i as int]@);
        }
        let enum_name = replace_str(agent_names[i].as_str(), " ", "");
        values.append("    ");
        values.append(enum_name.as_str());
        values.append("Agent,\n");
        i = i + 1;
    }
    assert(names.take(agent_names@.len() as int) =~= names);
    let mut r = UNREAL_AGENT_TYPES_HEAD.to_owned();
    r.append(values.as_str());
    r.append(UNREAL_AGENT_TYPES_TAIL);
    r
}

/// Unity script of the manager of all Oxyde agents in a scene.
pub const UNITY_MANAGER_SCRIPT: &'static str = r#"using UnityEngine;
using System.Collections.Generic;

namespace Oxyde.Unity
{
    /// <summary>
    /// Manages all Oxyde AI agents in the scene
    /// </summary>
    public class OxydeAgentManager : MonoBehaviour
    {
        // Singleton instance
        public static OxydeAgentManager Instance { get; private set; }
        
        // List of all agents in the scene
        private List<OxydeAgent> agents = new List<OxydeAgent>();
        
        // Initialize the Oxyde SDK
        private void Awake()
        {
            if (Instance == null)
            {
                Instance = this;
                DontDestroyOnLoad(gameObject);
                Debug.Log("Initializing Oxyde Agent Manager");
                
                // Initialize native SDK
                OxydeUnity.Init();
            }
            else
            {
                Destroy(gameObject);
            }
        }
        
        // Register an agent with the manager
        public void RegisterAgent(OxydeAgent agent)
        {
            if (!agents.Contains(agent))
            {
                agents.Add(agent);
                Debug.Log($"Registered agent: {agent.AgentName}");
            }
        }
        
        // Unregister an agent from the manager
        public void UnregisterAgent(OxydeAgent agent)
        {
            if (agents.Contains(agent))
            {
                agents.Remove(agent);
                Debug.Log($"Unregistered agent: {agent.AgentName}");
            }
        }
        
        // Update all agents with player context
        public void UpdateAgentContext(Transform player, Dictionary<string, object> additionalContext = null)
        {
            foreach (var agent in agents)
            {
                agent.UpdatePlayerContext(player, additionalContext);
            }
        }
        
        // Process input for the nearest agent
        public string ProcessInputForNearestAgent(Transform player, string input, float maxDistance = 5f)
        {
            OxydeAgent nearestAgent = null;
            float closestDistance = maxDistance;
            
            foreach (var agent in agents)
            {
                float distance = Vector3.Distance(player.position, agent.transform.position);
                if (distance < closestDistance)
                {
                    closestDistance = distance;
                    nearestAgent = agent;
                }
            }
            
            if (nearestAgent != null)
            {
                return nearestAgent.ProcessInput(input);
            }
            
            return "No one is close enough to hear you.";
        }
    }
}
"#;

/// Unity script that sets up the demo scene.
pub const UNITY_SCENE_SCRIPT: &'static str = r#"using UnityEngine;
using System.Collections.Generic;

namespace Oxyde.Unity
{
    /// <summary>
    /// Sets up the demo scene with Oxyde agents
    /// </summary>
    public class OxydeSceneSetup : MonoBehaviour
    {
        [Header("Agent Prefabs")]
        [SerializeField] private GameObject[] agentPrefabs;
        
        [Header("Scene Setup")]
        [SerializeField] private Transform playerTransform;
        
        void Start()
        {
            Debug.Log("Setting up Oxyde RPG demo scene");
            
            // Make sure we have the agent manager
            OxydeAgentManager manager = FindObjectOfType<OxydeAgentManager>();
            if (manager == null)
            {
                GameObject managerObject = new GameObject("Oxyde Agent Manager");
                manager = managerObject.AddComponent<OxydeAgentManager>();
            }
            
            // Spawn agents if none exist yet
            OxydeAgent[] existingAgents = FindObjectsOfType<OxydeAgent>();
            if (existingAgents.Length == 0 && agentPrefabs.Length > 0)
            {
                SpawnAgents();
            }
        }
        
        void Update()
        {
            // Update all agents with player position
            if (playerTransform != null)
            {
                OxydeAgentManager.Instance.UpdateAgentContext(playerTransform);
            }
        }
        
        private void SpawnAgents()
        {
            // In a real implementation, this would use the scene configuration
            // to determine positions and agent types
            
            // Spawn NPCs at predefined positions
            Vector3[] positions = new Vector3[]
            {
                new Vector3(5, 0, 3),   // Shopkeeper
                new Vector3(-5, 0, -2), // Guard
                new Vector3(2, 0, -4)   // Villager
            };
            
            // Spawn agents
            for (int i = 0; i < Mathf.Min(agentPrefabs.Length, positions.Length); i++)
            {
                GameObject agentObject = Instantiate(agentPrefabs[i], positions[i], Quaternion.identity);
                agentObject.name = $"NPC_{i}";
            }
            
            Debug.Log($"Spawned {Mathf.Min(agentPrefabs.Length, positions.Length)} agents");
        }
    }
}
"#;

/// Unity agent controller script, up to the agent's role.
pub const UNITY_AGENT_SCRIPT_0: &'static str = r#"using UnityEngine;
using System.Collections.Generic;

namespace Oxyde.Unity
{
    /// <summary>
    /// Controller for the "#;

/// Unity agent controller script, between the role and the class name.
pub const UNITY_AGENT_SCRIPT_1: &'static str = r#" agent
    /// </summary>
    public class "#;

/// Unity agent controller script, between the class name and the configuration file.
pub const UNITY_AGENT_SCRIPT_2: &'static str = r#"Controller : OxydeAgent
    {
        // Agent configuration
        [SerializeField] private string configResourcePath = "AgentConfigs/"#;

/// Unity agent controller script, between the configuration file and the agent's name.
pub const UNITY_AGENT_SCRIPT_3: &'static str = r#"";
        
        // Agent movement
        [SerializeField] private float moveSpeed = 1.5f;
        [SerializeField] private Transform[] waypoints;
        private int currentWaypoint = 0;
        
        // Dialogue UI references
        [SerializeField] private GameObject dialogueBubble;
        [SerializeField] private TMPro.TextMeshProUGUI dialogueText;
        
        // NPC state
        private bool isPlayerNearby = false;
        private float lastGreetingTime = -999f;
        private const float GREETING_COOLDOWN = 60f;
        
        protected override void Start()
        {
            base.Start();
            
            // Set agent name
            AgentName = ""#;

/// Unity agent controller script, after the agent's name.
pub const UNITY_AGENT_SCRIPT_4: &'static str = r#"";
            
            // Initialize the agent with configuration
            InitializeAgent(configResourcePath);
            
            // Hide dialogue bubble initially
            if (dialogueBubble != null)
            {
                dialogueBubble.SetActive(false);
            }
        }
        
        protected override void Update()
        {
            base.Update();
            
            // Move between waypoints if player is not nearby
            if (!isPlayerNearby && waypoints != null && waypoints.Length > 0)
            {
                MoveTowardsWaypoint();
            }
            
            // Auto-greet player when nearby
            if (isPlayerNearby)
            {
                if (Time.time - lastGreetingTime > GREETING_COOLDOWN)
                {
                    TryGreetPlayer();
                }
            }
        }
        
        private void MoveTowardsWaypoint()
        {
            if (currentWaypoint < waypoints.Length)
            {
                Vector3 targetPosition = waypoints[currentWaypoint].position;
                targetPosition.y = transform.position.y; // Keep same height
                
                // Move towards waypoint
                transform.position = Vector3.MoveTowards(
                    transform.position,
                    targetPosition,
                    moveSpeed * Time.deltaTime
                );
                
                // Look towards movement direction
                Vector3 direction = (targetPosition - transform.position).normalized;
                if (direction != Vector3.zero)
                {
                    transform.forward = direction;
                }
                
                // Check if reached waypoint
                if (Vector3.Distance(transform.position, targetPosition) < 0.1f)
                {
                    // Move to next waypoint
                    currentWaypoint = (currentWaypoint + 1) % waypoints.Length;
                }
            }
        }
        
        private void TryGreetPlayer()
        {
            // Process a proximity "greeting" intent
            string response = ProcessIntent("proximity");
            
            if (!string.IsNullOrEmpty(response))
            {
                ShowDialogue(response);
                lastGreetingTime = Time.time;
            }
        }
        
        // Show dialogue bubble with text
        public void ShowDialogue(string text)
        {
            if (dialogueBubble != null && dialogueText != null)
            {
                dialogueText.text = text;
                dialogueBubble.SetActive(true);
                
                // Hide dialogue after a delay
                CancelInvoke(nameof(HideDialogue));
                Invoke(nameof(HideDialogue), 4.0f);
            }
        }
        
        // Hide dialogue bubble
        private void HideDialogue()
        {
            if (dialogueBubble != null)
            {
                dialogueBubble.SetActive(false);
            }
        }
        
        // Process player input and display response
        public override string ProcessInput(string input)
        {
            string response = base.ProcessInput(input);
            
            // Show response in dialogue bubble
            ShowDialogue(response);
            
            return response;
        }
        
        // Process a specific intent type
        private string ProcessIntent(string intentType)
        {
            // Create a context JSON with the intent type
            Dictionary<string, object> intentContext = new Dictionary<string, object>()
            {
                { "intent_type", intentType }
            };
            
            // Create an empty message for proximity intents
            string inputText = intentType == "proximity" ? "" : "Hello";
            
            // Update context with intent
            UpdateContext(intentContext);
            
            // Process the input
            return ProcessInput(inputText);
        }
        
        // Called when player enters detection range
        private void OnTriggerEnter(Collider other)
        {
            if (other.CompareTag("Player"))
            {
                isPlayerNearby = true;
            }
        }
        
        // Called when player exits detection range
        private void OnTriggerExit(Collider other)
        {
            if (other.CompareTag("Player"))
            {
                isPlayerNearby = false;
                HideDialogue();
            }
        }
    }
}
"#;

/// WebAssembly demo page, up to the agent buttons.
pub const WASM_DEMO_HEAD: &'static str = r#"<!DOCTYPE html>
<html lang="en">
<head>
    <meta charset="UTF-8">
    <meta name="viewport" content="width=device-width, initial-scale=1.0">
    <title>Oxyde RPG Demo</title>
    <style>
        body { font-family: Arial, sans-serif; margin: 0; padding: 0; }
        .game-container { 
            display: flex; 
            flex-direction: column; 
            width: 800px; 
            margin: 0 auto; 
            padding: 20px; 
        }
        .game-view { 
            position: relative; 
            width: 100%; 
            height: 500px; 
            background-color: #f0f0f0; 
            border: 1px solid #ccc; 
            overflow: hidden; 
        }
        .player { 
            position: absolute; 
            width: 20px; 
            height: 20px; 
            background-color: blue; 
            border-radius: 50%; 
        }
        .npc { 
            position: absolute; 
            width: 20px; 
            height: 20px; 
            background-color: green; 
            border-radius: 50%; 
        }
        .dialogue { 
            position: absolute; 
            background-color: white; 
            border: 1px solid #333; 
            border-radius: 5px; 
            padding: 5px; 
            max-width: 150px; 
            transform: translateX(-50%); 
            visibility: hidden; 
        }
        .controls { margin-top: 20px; }
        .console { 
            height: 200px; 
            margin-top: 20px; 
            border: 1px solid #ccc; 
            padding: 10px; 
            overflow-y: scroll; 
            background-color: #f9f9f9; 
        }
        .chat-input { 
            display: flex; 
            margin-top: 10px; 
        }
        .chat-input input { flex-grow: 1; padding: 5px; }
        .chat-input button { padding: 5px 10px; }
    </style>
</head>
<body>
    <div class="game-container">
        <h1>Oxyde RPG Demo</h1>
        
        <div class="game-view" id="gameView">
            <div class="player" id="player"></div>
            <!-- NPCs will be added dynamically -->
        </div>
        
        <div class="controls">
            <p>Use WASD keys to move. Press E near an NPC to interact.</p>
            <div id="agentButtons">
                "#;

/// WebAssembly demo page, after the agent buttons.
pub const WASM_DEMO_TAIL: &'static str = r#"
            </div>
        </div>
        
        <div class="chat-input">
            <input type="text" id="chatInput" placeholder="Type message...">
            <button onclick="sendChat()">Send</button>
        </div>
        
        <div class="console" id="console"></div>
    </div>
    
    <script type="module">
        import oxyde from './js/oxyde-wasm.js';
        
        // Make oxyde available globally
        window.oxyde = oxyde;
        window.agents = [];
        window.playerPos = { x: 400, y: 250 };
        window.activeNpc = null;
        
        // Initialize the game
        window.initGame = async function() {
            await oxyde.init();
            log("Oxyde SDK initialized");
            updatePlayerPosition();
            
            // Set up key controls
            document.addEventListener('keydown', handleKeyDown);
        };
        
        // Load an agent
        window.loadAgent = async function(configPath) {
            const agent = await oxyde.createAgent(configPath);
            if (agent) {
                log(`Loaded agent: ${agent.name} (${agent.role})`);
                
                // Create visual representation
                createNpcElement(agent);
                
                // Set initial position - random in the game view
                const randomX = Math.floor(Math.random() * 700) + 50;
                const randomY = Math.floor(Math.random() * 400) + 50;
                updateNpcPosition(agent.id, randomX, randomY);
                
                window.agents.push(agent);
            }
        };
        
        // Create NPC visual element
        function createNpcElement(agent) {
            const gameView = document.getElementById('gameView');
            
            // Create NPC element
            const npcElement = document.createElement('div');
            npcElement.id = `npc-${agent.id}`;
            npcElement.className = 'npc';
            npcElement.title = agent.name;
            
            // Create dialogue bubble
            const dialogueElement = document.createElement('div');
            dialogueElement.id = `dialogue-${agent.id}`;
            dialogueElement.className = 'dialogue';
            dialogueElement.style.bottom = '25px';
            
            // Add to game view
            gameView.appendChild(npcElement);
            gameView.appendChild(dialogueElement);
        }
        
        // Update NPC position
        window.updateNpcPosition = function(agentId, x, y) {
            const agent = oxyde.getAgent(agentId);
            if (agent) {
                // Update agent's record
                agent.position = { x, y };
                
                // Update visual position
                const npcElement = document.getElementById(`npc-${agentId}`);
                if (npcElement) {
                    npcElement.style.left = `${x}px`;
                    npcElement.style.top = `${y}px`;
                }
                
                // Update dialogue position
                const dialogueElement = document.getElementById(`dialogue-${agentId}`);
                if (dialogueElement) {
                    dialogueElement.style.left = `${x}px`;
                }
                
                // Update context with player distance
                const dx = window.playerPos.x - x;
                const dy = window.playerPos.y - y;
                const distance = Math.sqrt(dx*dx + dy*dy);
                
                oxyde.updateAgentContext(agentId, {
                    position: { x, y },
                    player_x: window.playerPos.x,
                    player_y: window.playerPos.y,
                    player_distance: distance
                });
                
                // Auto-greet if player is close
                if (distance < 50) {
                    checkProximityGreeting(agentId);
                }
            }
        };
        
        // Update player position
        window.updatePlayerPosition = function() {
            const playerElement = document.getElementById('player');
            playerElement.style.left = `${window.playerPos.x}px`;
            playerElement.style.top = `${window.playerPos.y}px`;
            
            // Update NPCs to react to player position
            window.agents.forEach(agent => {
                updateNpcPosition(agent.id, agent.position.x, agent.position.y);
            });
            
            // Find nearest NPC for interaction
            const { agent, distance } = oxyde.getNearestAgent(window.playerPos, 70);
            window.activeNpc = distance < 70 ? agent : null;
        };
        
        // Send chat message
        window.sendChat = async function() {
            const chatInput = document.getElementById('chatInput');
            const message = chatInput.value.trim();
            
            if (!message) return;
            
            // Clear input
            chatInput.value = '';
            
            // Log player message
            log(`Player: ${message}`);
            
            // Process with nearest NPC if one is active
            if (window.activeNpc) {
                const response = await oxyde.processInput(window.activeNpc.id, message);
                log(`${window.activeNpc.name}: ${response}`);
                showDialogue(window.activeNpc.id, response);
            } else {
                log("No one is close enough to hear you...");
            }
        };
        
        // Show dialogue bubble
        function showDialogue(agentId, text) {
            const dialogueElement = document.getElementById(`dialogue-${agentId}`);
            if (dialogueElement) {
                dialogueElement.textContent = text;
                dialogueElement.style.visibility = 'visible';
                
                // Hide after 5 seconds
                setTimeout(() => {
                    dialogueElement.style.visibility = 'hidden';
                }, 5000);
            }
        }
        
        // Check for proximity greeting
        async function checkProximityGreeting(agentId) {
            const agent = oxyde.getAgent(agentId);
            if (!agent) return;
            
            // Check if we should greet (would have cooldown logic in real implementation)
            const now = Date.now();
            if (!agent.lastGreetingTime || now - agent.lastGreetingTime > 60000) {
                const response = await oxyde.processInput(agentId, "");
                if (response && response.trim()) {
                    log(`${agent.name}: ${response}`);
                    showDialogue(agentId, response);
                    agent.lastGreetingTime = now;
                }
            }
        }
        
        // Handle keyboard input
        function handleKeyDown(event) {
            const speed = 10;
            let dx = 0, dy = 0;
            
            switch(event.key.toLowerCase()) {
                case 'w': dy = -speed; break;
                case 'a': dx = -speed; break;
                case 's': dy = speed; break;
                case 'd': dx = speed; break;
                case 'e': 
                    // Interact with nearest NPC
                    if (window.activeNpc) {
                        document.getElementById('chatInput').focus();
                    }
                    break;
            }
            
            if (dx !== 0 || dy !== 0) {
                // Update player position
                window.playerPos.x = Math.max(10, Math.min(790, window.playerPos.x + dx));
                window.playerPos.y = Math.max(10, Math.min(490, window.playerPos.y + dy));
                updatePlayerPosition();
                
                // Prevent default scrolling behavior
                event.preventDefault();
            }
        }
        
        // Log message to console
        window.log = function(message) {
            const consoleElement = document.getElementById('console');
            const entry = document.createElement('div');
            entry.textContent = message;
            consoleElement.appendChild(entry);
            consoleElement.scrollTop = consoleElement.scrollHeight;
        };
        
        // Initialize game when page loads
        document.addEventListener('DOMContentLoaded', initGame);
    </script>
</body>
</html>
"#;

/// A name with its spaces taken out.
pub open spec fn without_spaces(name: Seq<char>) -> Seq<char> {
    replace_all(name, " "@, Seq::empty())
}

/// The identifier of an agent in the WebAssembly demo: its name in
/// lowercase, spaces turned into underscores.
pub open spec fn wasm_agent_id(name: Seq<char>) -> Seq<char> {
    replace_all(str_lowercase(name), " "@, "_"@)
}

fn name_without_spaces(name: &str) -> (r: String)
    ensures
        r@ == without_spaces(name@),
{
    proof {
        reveal_strlit(" ");
        reveal_strlit("");
        assert(""@ =~= Seq::<char>::empty());
    }
    replace_str(name, " ", "")
}

fn wasm_id(name: &str) -> (r: String)
    ensures
        r@ == wasm_agent_id(name@),
{
    proof {
        reveal_strlit(" ");
    }
    let lower = to_lowercase(name);
    replace_str(lower.as_str(), " ", "_")
}

/// Generate the Unity script of the agent manager.
pub fn generate_unity_manager_script() -> (r: String)
    ensures
        r@ == UNITY_MANAGER_SCRIPT@,
{
    UNITY_MANAGER_SCRIPT.to_owned()
}

/// Generate the Unity script that sets up the demo scene.
pub fn generate_unity_scene_script() -> (r: String)
    ensures
        r@ == UNITY_SCENE_SCRIPT@,
{
    UNITY_SCENE_SCRIPT.to_owned()
}

/// The Unity controller script of an agent with a role and a name, whose
/// configuration is the resource `config_filename`.
pub open spec fn unity_agent_script(role: Seq<char>, name: Seq<char>, config_filename: Seq<char>) -> Seq<
    char,
> {
    UNITY_AGENT_SCRIPT_0@ + role + UNITY_AGENT_SCRIPT_1@ + without_spaces(name)
        + UNITY_AGENT_SCRIPT_2@ + config_filename + UNITY_AGENT_SCRIPT_3@ + name
        + UNITY_AGENT_SCRIPT_4@
}

/// Generate the Unity controller script of an agent.
pub fn generate_unity_agent_script(role: &str, name: &str, config_filename: &str) -> (r: String)
    ensures
        r@ == unity_agent_script(role@, name@, config_filename@),
{
    let class_name = name_without_spaces(name);
    let mut r = UNITY_AGENT_SCRIPT_0.to_owned();
    r.append(role);
    r.append(UNITY_AGENT_SCRIPT_1);
    r.append(class_name.as_str());
    r.append(UNITY_AGENT_SCRIPT_2);
    r.append(config_filename);
    r.append(UNITY_AGENT_SCRIPT_3);
    r.append(name);
    r.append(UNITY_AGENT_SCRIPT_4);
    r
}

/// The buttons of the WebAssembly demo page that load each agent.
pub open spec fn agent_buttons(names: Seq<Seq<char>>) -> Seq<char>
    decreases names.len(),
{
    if names.len() == 0 {
        Seq::empty()
    } else {
        agent_buttons(names.drop_last()) + "<button onclick=\"loadAgent('configs/"@ + wasm_agent_id(
            names.last(),
        ) + ".json')\">Load "@ + names.last() + "</button>"@
    }
}

/// Generate the WebAssembly demo page for agents with the given names.
pub fn generate_wasm_demo_html(agent_names: &Vec<String>) -> (r: String)
    ensures
        r@ == WASM_DEMO_HEAD@ + agent_buttons(agent_names@.map_values(|n: String| n@))
            + WASM_DEMO_TAIL@,
{
    let ghost names = agent_names@.map_values(|n: String| n@);
    let mut buttons = String::new();
    let mut i: usize = 0;
    while i < agent_names.len()
        invariant
            i <= agent_names.len(),
            names == agent_names@.map_values(|n: String| n@),
            buttons@ == agent_buttons(names.take(i as int)),
        decreases agent_names.len() - i,
    {
        proof {
            assert(names.take(i + 1).drop_last() =~= names.take(i as int));
            assert(names.take(i + 1).last() == agent_names@[i as int]@);
        }
        let id = wasm_id(agent_names[i].as_str());
        buttons.append("<button onclick=\"loadAgent('configs/");
        buttons.append(id.as_str());
        buttons.append(".json')\">Load ");
        buttons.append(agent_names[i].as_str());
        buttons.append("</button>");
        i = i + 1;
    }
    assert(names.take(agent_names@.len() as int) =~= names);
    let mut r = WASM_DEMO_HEAD.to_owned();
    r.append(buttons.as_str());
    r.append(WASM_DEMO_TAIL);
    r
}

/// File name of the configuration of the agent at position `index` in the
/// Unity resources: `agent_{index}.json`.
pub fn unity_config_filename(index: usize) -> (r: String)
    ensures
        r@ == "agent_"@ + decimal(index as nat) + ".json"@,
{
    let mut r = "agent_".to_owned();
    push_decimal(&mut r, index as u128);
    r.append(".json");
    r
}

/// File name of the Unity controller script of an agent:
/// `{name without spaces}Controller.cs`.
pub fn unity_controller_filename(name: &str) -> (r: String)
    ensures
        r@ == without_spaces(name@) + "Controller.cs"@,
{
    let mut r = name_without_spaces(name);
    r.append("Controller.cs");
    r
}

/// File name of an agent's configuration for Unreal Engine:
/// `Agent_{name without spaces}.json`.
pub fn unreal_config_filename(name: &str) -> (r: String)
    ensures
        r@ == "Agent_"@ + without_spaces(name@) + ".json"@,
{
    let mut r = "Agent_".to_owned();
    let n = name_without_spaces(name);
    r.append(n.as_str());
    r.append(".json");
    r
}

/// File name of an agent's configuration for the WebAssembly demo:
/// `{agent id}.json`.
pub fn wasm_config_filename(name: &str) -> (r: String)
    ensures
        r@ == wasm_agent_id(name@) + ".json"@,
{
    let mut r = wasm_id(name);
    r.append(".json");
    r
}

} // verus!
