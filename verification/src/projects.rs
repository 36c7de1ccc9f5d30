//! Project requests: the data a caller supplies to create a hosted project
//! or a reusable template. The server-block rendering and the persistence
//! around these live with the embedding program.

use vstd::prelude::*;

verus! {

/// What a caller asks for when creating a project.
#[derive(Debug)]
pub struct CreateProjectRequest {
    pub name: String,
    pub domain: String,
    pub port: u16,
    pub root: String,
    pub index: Vec<String>,
    pub php: bool,
    pub ssl: bool,
    pub remark: String,
}

/// What a caller asks for when creating a template.
#[derive(Debug)]
pub struct CreateTemplateRequest {
    pub name: String,
    pub content: String,
    pub remark: String,
}

} // verus!
