//! The data that a review is made of.

use vstd::prelude::*;

verus! {

/// What happened to an entity between the two snapshots.
#[derive(Debug, Clone, Copy, PartialEq, Eq, Structural)]
pub enum ChangeType {
    Added,
    Modified,
    Deleted,
    Moved,
    Renamed,
}

impl ChangeType {
    /// The lower-case name of the variant.
    pub open spec fn label_spec(self) -> Seq<char> {
        match self {
            ChangeType::Added => "added"@,
            ChangeType::Modified => "modified"@,
            ChangeType::Deleted => "deleted"@,
            ChangeType::Moved => "moved"@,
            ChangeType::Renamed => "renamed"@,
        }
    }

    /// The name of the variant as it is written.
    pub open spec fn name_spec(self) -> Seq<char> {
        match self {
            ChangeType::Added => "Added"@,
            ChangeType::Modified => "Modified"@,
            ChangeType::Deleted => "Deleted"@,
            ChangeType::Moved => "Moved"@,
            ChangeType::Renamed => "Renamed"@,
        }
    }

    /// The name of the variant as it is written.
    pub fn name(&self) -> (r: &'static str)
        ensures
            r@ == self.name_spec(),
    {
        match self {
            ChangeType::Added => "Added",
            ChangeType::Modified => "Modified",
            ChangeType::Deleted => "Deleted",
            ChangeType::Moved => "Moved",
            ChangeType::Renamed => "Renamed",
        }
    }

    /// The lower-case name of the variant.
    pub fn label(&self) -> (r: &'static str)
        ensures
            r@ == self.label_spec(),
    {
        match self {
            ChangeType::Added => "added",
            ChangeType::Modified => "modified",
            ChangeType::Deleted => "deleted",
            ChangeType::Moved => "moved",
            ChangeType::Renamed => "renamed",
        }
    }
}

/// Which of the three dimensions (text, syntax, function) a change touches:
/// one variant for each non-empty set of them.
#[derive(Debug, Clone, Copy, PartialEq, Eq, Structural)]
pub enum ChangeClassification {
    /// Only comments, whitespace or documentation changed.
    Text,
    /// Only signatures, types or declarations changed.
    Syntax,
    /// Logic or behaviour changed.
    Functional,
    /// Comments and signatures.
    TextSyntax,
    /// Comments and logic.
    TextFunctional,
    /// Signatures and logic.
    SyntaxFunctional,
    /// All three.
    TextSyntaxFunctional,
}

impl ChangeClassification {
    /// The variant that stands for a set of dimensions; the empty set is
    /// counted as text.
    pub open spec fn of_dimensions(text: bool, syntax: bool, functional: bool) -> Self {
        match (text, syntax, functional) {
            (true, true, true) => ChangeClassification::TextSyntaxFunctional,
            (true, true, false) => ChangeClassification::TextSyntax,
            (true, false, true) => ChangeClassification::TextFunctional,
            (false, true, true) => ChangeClassification::SyntaxFunctional,
            (true, false, false) => ChangeClassification::Text,
            (false, true, false) => ChangeClassification::Syntax,
            (false, false, true) => ChangeClassification::Functional,
            (false, false, false) => ChangeClassification::Text,
        }
    }

    /// The dimensions joined by `+`, in lower case.
    pub open spec fn label_spec(self) -> Seq<char> {
        match self {
            ChangeClassification::Text => "text"@,
            ChangeClassification::Syntax => "syntax"@,
            ChangeClassification::Functional => "functional"@,
            ChangeClassification::TextSyntax => "text+syntax"@,
            ChangeClassification::TextFunctional => "text+functional"@,
            ChangeClassification::SyntaxFunctional => "syntax+functional"@,
            ChangeClassification::TextSyntaxFunctional => "text+syntax+functional"@,
        }
    }

    /// The dimensions joined by `+`, in lower case.
    pub fn label(&self) -> (r: &'static str)
        ensures
            r@ == self.label_spec(),
    {
        match self {
            ChangeClassification::Text => "text",
            ChangeClassification::Syntax => "syntax",
            ChangeClassification::Functional => "functional",
            ChangeClassification::TextSyntax => "text+syntax",
            ChangeClassification::TextFunctional => "text+functional",
            ChangeClassification::SyntaxFunctional => "syntax+functional",
            ChangeClassification::TextSyntaxFunctional => "text+syntax+functional",
        }
    }

    /// The variant that stands for a set of dimensions; the empty set is
    /// counted as text.
    pub fn from_dimensions(text: bool, syntax: bool, functional: bool) -> (r: Self)
        ensures
            r == Self::of_dimensions(text, syntax, functional),
    {
        match (text, syntax, functional) {
            (true, true, true) => ChangeClassification::TextSyntaxFunctional,
            (true, true, false) => ChangeClassification::TextSyntax,
            (true, false, true) => ChangeClassification::TextFunctional,
            (false, true, true) => ChangeClassification::SyntaxFunctional,
            (true, false, false) => ChangeClassification::Text,
            (false, true, false) => ChangeClassification::Syntax,
            (false, false, true) => ChangeClassification::Functional,
            (false, false, false) => ChangeClassification::Text,
        }
    }
}

/// How much attention a changed entity needs, from least to most.
#[derive(Debug, Clone, Copy, PartialEq, Eq, Structural, PartialOrd, Ord)]
pub enum RiskLevel {
    Low,
    Medium,
    High,
    Critical,
}

impl RiskLevel {
    /// The position of the level in the order from `Low` (0) to `Critical` (3).
    pub open spec fn rank_spec(self) -> nat {
        match self {
            RiskLevel::Low => 0,
            RiskLevel::Medium => 1,
            RiskLevel::High => 2,
            RiskLevel::Critical => 3,
        }
    }

    /// The lower-case name of the level.
    pub open spec fn label_spec(self) -> Seq<char> {
        match self {
            RiskLevel::Low => "low"@,
            RiskLevel::Medium => "medium"@,
            RiskLevel::High => "high"@,
            RiskLevel::Critical => "critical"@,
        }
    }

    /// The position of the level in the order from `Low` (0) to `Critical` (3).
    pub fn rank(&self) -> (r: u8)
        ensures
            r == self.rank_spec(),
    {
        match self {
            RiskLevel::Low => 0,
            RiskLevel::Medium => 1,
            RiskLevel::High => 2,
            RiskLevel::Critical => 3,
        }
    }

    /// Whether this level is `floor` or above it.
    pub fn at_least(&self, floor: RiskLevel) -> (r: bool)
        ensures
            r == (self.rank_spec() >= floor.rank_spec()),
    {
        self.rank() >= floor.rank()
    }

    /// The lower-case name of the level.
    pub fn label(&self) -> (r: &'static str)
        ensures
            r@ == self.label_spec(),
    {
        match self {
            RiskLevel::Low => "low",
            RiskLevel::Medium => "medium",
            RiskLevel::High => "high",
            RiskLevel::Critical => "critical",
        }
    }
}

/// One entity-level change, as the semantic differ reports it.
#[derive(Debug, Clone)]
pub struct SemanticChange {
    pub entity_id: String,
    pub change_type: ChangeType,
    pub entity_type: String,
    pub entity_name: String,
    pub file_path: String,
    pub old_file_path: Option<String>,
    pub before_content: Option<String>,
    pub after_content: Option<String>,
    /// `Some(true)` when the structural hash differs, `Some(false)` when only
    /// comments or layout changed, `None` when one side is absent.
    pub structural_change: Option<bool>,
}

/// The review of one changed entity.
#[derive(Debug, Clone)]
pub struct EntityReview {
    pub entity_id: String,
    pub entity_name: String,
    pub entity_type: String,
    pub file_path: String,
    pub change_type: ChangeType,
    pub classification: ChangeClassification,
    /// The risk score in millionths: 0 stands for 0.0 and 1 000 000 for 1.0.
    pub risk_score: u64,
    pub risk_level: RiskLevel,
    pub blast_radius: usize,
    pub dependent_count: usize,
    pub dependency_count: usize,
    pub is_public_api: bool,
    pub structural_change: Option<bool>,
    pub group_id: usize,
    pub start_line: usize,
    pub end_line: usize,
    pub before_content: Option<String>,
    pub after_content: Option<String>,
    /// Name and file of each direct dependent.
    pub dependent_names: Vec<(String, String)>,
    /// Name and file of each direct dependency.
    pub dependency_names: Vec<(String, String)>,
}

/// A set of changes that belong together.
#[derive(Debug, Clone)]
pub struct ChangeGroup {
    pub id: usize,
    pub label: String,
    pub entity_ids: Vec<String>,
}

/// How many reviews fall under each risk level.
#[derive(Debug, Clone, Copy, PartialEq, Eq, Structural)]
pub struct RiskBreakdown {
    pub critical: usize,
    pub high: usize,
    pub medium: usize,
    pub low: usize,
}

/// How many reviews fall under each classification; every variant that
/// names more than one dimension counts as mixed.
#[derive(Debug, Clone, Copy, PartialEq, Eq, Structural)]
pub struct ClassificationBreakdown {
    pub text: usize,
    pub syntax: usize,
    pub functional: usize,
    pub mixed: usize,
}

/// How many reviews fall under each change type.
#[derive(Debug, Clone, Copy, PartialEq, Eq, Structural)]
pub struct ChangeTypeBreakdown {
    pub added: usize,
    pub modified: usize,
    pub deleted: usize,
    pub moved: usize,
    pub renamed: usize,
}

/// The counts of a review.
#[derive(Debug, Clone, Copy, PartialEq, Eq, Structural)]
pub struct ReviewStats {
    pub total_entities: usize,
    pub by_risk: RiskBreakdown,
    pub by_classification: ClassificationBreakdown,
    pub by_change_type: ChangeTypeBreakdown,
}

/// Milliseconds spent in each phase, and what the phases saw.
#[derive(Debug, Clone, Copy, PartialEq, Eq, Structural)]
pub struct Timing {
    pub diff_ms: u64,
    pub list_files_ms: u64,
    pub file_count: usize,
    pub graph_build_ms: u64,
    pub graph_entity_count: usize,
    pub scoring_ms: u64,
    pub total_ms: u64,
}

/// The whole review of a set of changes.
#[derive(Debug, Clone)]
pub struct ReviewResult {
    /// By falling risk score; reviews of one score by rising entity id.
    pub entity_reviews: Vec<EntityReview>,
    /// By falling size.
    pub groups: Vec<ChangeGroup>,
    pub stats: ReviewStats,
    pub timing: Timing,
    /// The changes that were reviewed.
    pub changes: Vec<SemanticChange>,
}

} // verus!
