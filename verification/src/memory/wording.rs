//! What the memory extension tells of itself.

use vstd::prelude::*;

verus! {

/// How to use the memory tools.
pub const BASE_INSTRUCTIONS: &'static str =
    r#" This extension allows storage and retrieval of categorized information with tagging support. It's designed to help
 manage important information across sessions in a systematic and organized manner.
 Capabilities:
 1. Store information in categories with optional tags for context-based retrieval.
 2. Search memories by content or specific tags to find relevant information.
 3. List all available memory categories for easy navigation.
 4. Remove entire categories of memories when they are no longer needed.
 When to call memory tools:
 - These are examples where the assistant should proactively call the memory tool because the user is providing recurring preferences, project details, or workflow habits that they may expect to be remembered.
 - Preferred Development Tools & Conventions
 - User-specific data (e.g., name, preferences)
 - Project-related configurations
 - Workflow descriptions
 - Other critical settings
 Interaction Protocol:
 When important information is identified, such as:
 - User-specific data (e.g., name, preferences)
 - Project-related configurations
 - Workflow descriptions
 - Other critical settings
 The protocol is:
 1. Identify the critical piece of information.
 2. Ask the user if they'd like to store it for later reference.
 3. Upon agreement:
    - Suggest a relevant category like "personal" for user data or "development" for project preferences.
    - Inquire about any specific tags they want to apply for easier lookup.
    - Confirm the desired storage location:
      - Local storage (.goose/memory) for project-specific details.
      - Global storage (~/.config/goose/memory) for user-wide data.
    - Use the remember_memory tool to store the information.
      - `remember_memory(category, data, tags, is_global)`
 Example Interaction for Storing Information:
 User: "For this project, we use black for code formatting"
 Assistant: "You've mentioned a development preference. Would you like to remember this for future conversations?
 User: "Yes, please."
 Assistant: "I'll store this in the 'development' category. Any specific tags to add? Suggestions: #formatting
 #tools"
 User: "Yes, use those tags."
 Assistant: "Shall I store this locally for this project only, or globally for all projects?"
 User: "Locally, please."
 Assistant: *Stores the information under category="development", tags="formatting tools", scope="local"*
 Retrieving Memories:
 To access stored information, utilize the memory retrieval protocols:
 - **Search by Category**:
   - Provides all memories within the specified context.
   - Use: `retrieve_memories(category="development", is_global=False)`
   - Note: If you want to retrieve all local memories, use `retrieve_memories(category="*", is_global=False)`
   - Note: If you want to retrieve all global memories, use `retrieve_memories(category="*", is_global=True)`
 - **Filter by Tags**:
   - Enables targeted retrieval based on specific tags.
   - Use: Provide tag filters to refine search.
To remove a memory, use the following protocol:
- **Remove by Category**:
  - Removes all memories within the specified category.
  - Use: `remove_memory_category(category="development", is_global=False)`
  - Note: If you want to remove all local memories, use `remove_memory_category(category="*", is_global=False)`
  - Note: If you want to remove all global memories, use `remove_memory_category(category="*", is_global=True)`
The Protocol is:
 1. Confirm what kind of information the user seeks by category or keyword.
 2. Suggest categories or relevant tags based on the user's request.
 3. Use the retrieve function to access relevant memory entries.
 4. Present a summary of findings, offering detailed exploration upon request.
 Example Interaction for Retrieving Information:
 User: "What configuration do we use for code formatting?"
 Assistant: "Let me check the 'development' category for any related memories. Searching using #formatting tag."
 Assistant: *Executes retrieval: `retrieve_memories(category="development", is_global=False)`*
 Assistant: "We have 'black' configured for code formatting, specific to this project. Would you like further
 details?"
 Memory Overview:
 - Categories can include a wide range of topics, structured to keep information grouped logically.
 - Tags enable quick filtering and identification of specific entries.
 Operational Guidelines:
 - Always confirm with the user before saving information.
 - Propose suitable categories and tag suggestions.
 - Discuss storage scope thoroughly to align with user needs.
 - Acknowledge the user about what is stored and where, for transparency and ease of future retrieval.
"#;

/// What stands before the saved memories.
pub const FOLLOW_UP: &'static str =
    r#"**Here are the user's currently saved memories:**
Please keep this information in mind when answering future questions.
Do not bring up memories unless relevant.
Note: if the user has not saved any memories, this section will be empty.
Note: if the user removes a memory that was previously loaded into the system, please remove it from the system instructions.
"#;

/// The arguments of `remember_memory`.
pub const REMEMBER_SCHEMA: &'static str =
    r#"{"type":"object","properties":{"category":{"type":"string"},"data":{"type":"string"},"tags":{"type":"array","items":{"type":"string"}},"is_global":{"type":"boolean"}},"required":["category","data","is_global"]}"#;

/// The arguments of `retrieve_memories` and `remove_memory_category`.
pub const CATEGORY_SCHEMA: &'static str =
    r#"{"type":"object","properties":{"category":{"type":"string"},"is_global":{"type":"boolean"}},"required":["category","is_global"]}"#;

/// The arguments of `remove_specific_memory`.
pub const REMOVE_SCHEMA: &'static str =
    r#"{"type":"object","properties":{"category":{"type":"string"},"memory_content":{"type":"string"},"is_global":{"type":"boolean"}},"required":["category","memory_content","is_global"]}"#;

} // verus!
