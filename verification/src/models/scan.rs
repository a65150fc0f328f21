use vstd::prelude::*;

verus! {

/// The outcome of a scan: every ecosystem's report, the total reclaimable
/// size, and a per-project view across ecosystems.
#[derive(Debug, Clone)]
pub struct ScanReport {
    pub categories: Vec<CategoryReport>,
    pub total_size: u64,
    pub projects: Vec<ProjectSummary>,
}

/// A flattened cross-ecosystem view of a single project directory.
#[derive(Debug, Clone)]
pub struct ProjectSummary {
    pub name: String,
    pub path: String,
    pub ecosystem: String,
    pub items: Vec<CacheItem>,
    pub total_size: u64,
    pub last_modified: Option<u64>,
}

/// What one plugin (ecosystem) found.
#[derive(Debug, Clone)]
pub struct CategoryReport {
    pub category: String,
    pub global_items: Vec<CacheItem>,
    pub projects: Vec<ProjectReport>,
    pub command_items: Vec<CommandCacheItem>,
    pub total_size: u64,
    pub is_detected: bool,
}

/// The cache items one plugin found inside one project directory.
#[derive(Debug, Clone)]
pub struct ProjectReport {
    pub name: String,
    pub path: String,
    pub items: Vec<CacheItem>,
    pub total_size: u64,
    pub last_modified: Option<u64>,
}

#[derive(Debug, Clone, Copy, PartialEq, Eq, Structural)]
pub enum ItemStatus {
    Found,
    Missing,
    RequiresAction,
}

/// A measured cache location.
#[derive(Debug, Clone)]
pub struct CacheItem {
    pub name: String,
    pub path: String,
    pub size_bytes: u64,
    pub file_count: usize,
    pub dir_count: usize,
    pub safe: bool,
    pub explanation: Option<String>,
    pub status: ItemStatus,
    pub last_modified: Option<u64>,
}

/// An item that runs a shell command rather than deleting a path.
#[derive(Debug, Clone)]
pub struct CommandCacheItem {
    pub name: String,
    pub command: String,
    pub description: String,
    pub safe: bool,
    pub explanation: Option<String>,
}

/// Mathematical view of a [`CacheItem`].
pub struct CacheItemView {
    pub name: Seq<char>,
    pub path: Seq<char>,
    pub size_bytes: u64,
    pub file_count: usize,
    pub dir_count: usize,
    pub safe: bool,
    pub explanation: Option<Seq<char>>,
    pub status: ItemStatus,
    pub last_modified: Option<u64>,
}

/// Mathematical view of a [`CommandCacheItem`].
pub struct CommandCacheItemView {
    pub name: Seq<char>,
    pub command: Seq<char>,
    pub description: Seq<char>,
    pub safe: bool,
    pub explanation: Option<Seq<char>>,
}

/// Mathematical view of a [`ProjectReport`].
pub struct ProjectReportView {
    pub name: Seq<char>,
    pub path: Seq<char>,
    pub items: Seq<CacheItemView>,
    pub total_size: int,
    pub last_modified: Option<u64>,
}

/// Mathematical view of a [`CategoryReport`].
pub struct CategoryReportView {
    pub category: Seq<char>,
    pub global_items: Seq<CacheItemView>,
    pub projects: Seq<ProjectReportView>,
    pub command_items: Seq<CommandCacheItemView>,
    pub total_size: int,
    pub is_detected: bool,
}

/// Mathematical view of a [`ProjectSummary`].
pub struct ProjectSummaryView {
    pub name: Seq<char>,
    pub path: Seq<char>,
    pub ecosystem: Seq<char>,
    pub items: Seq<CacheItemView>,
    pub total_size: int,
    pub last_modified: Option<u64>,
}

/// Mathematical view of a [`ScanReport`].
pub struct ScanReportView {
    pub categories: Seq<CategoryReportView>,
    pub total_size: int,
    pub projects: Seq<ProjectSummaryView>,
}

pub open spec fn opt_view(o: Option<String>) -> Option<Seq<char>> {
    match o {
        Some(s) => Some(s@),
        None => None,
    }
}

impl View for CacheItem {
    type V = CacheItemView;

    open spec fn view(&self) -> CacheItemView {
        CacheItemView {
            name: self.name@,
            path: self.path@,
            size_bytes: self.size_bytes,
            file_count: self.file_count,
            dir_count: self.dir_count,
            safe: self.safe,
            explanation: opt_view(self.explanation),
            status: self.status,
            last_modified: self.last_modified,
        }
    }
}

impl View for CommandCacheItem {
    type V = CommandCacheItemView;

    open spec fn view(&self) -> CommandCacheItemView {
        CommandCacheItemView {
            name: self.name@,
            command: self.command@,
            description: self.description@,
            safe: self.safe,
            explanation: opt_view(self.explanation),
        }
    }
}

pub open spec fn items_view(v: Seq<CacheItem>) -> Seq<CacheItemView> {
    v.map_values(|c: CacheItem| c@)
}

pub open spec fn commands_view(v: Seq<CommandCacheItem>) -> Seq<CommandCacheItemView> {
    v.map_values(|c: CommandCacheItem| c@)
}

impl View for ProjectReport {
    type V = ProjectReportView;

    open spec fn view(&self) -> ProjectReportView {
        ProjectReportView {
            name: self.name@,
            path: self.path@,
            items: items_view(self.items@),
            total_size: self.total_size as int,
            last_modified: self.last_modified,
        }
    }
}

pub open spec fn projects_view(v: Seq<ProjectReport>) -> Seq<ProjectReportView> {
    v.map_values(|p: ProjectReport| p@)
}

impl View for CategoryReport {
    type V = CategoryReportView;

    open spec fn view(&self) -> CategoryReportView {
        CategoryReportView {
            category: self.category@,
            global_items: items_view(self.global_items@),
            projects: projects_view(self.projects@),
            command_items: commands_view(self.command_items@),
            total_size: self.total_size as int,
            is_detected: self.is_detected,
        }
    }
}

pub open spec fn categories_view(v: Seq<CategoryReport>) -> Seq<CategoryReportView> {
    v.map_values(|c: CategoryReport| c@)
}

impl View for ProjectSummary {
    type V = ProjectSummaryView;

    open spec fn view(&self) -> ProjectSummaryView {
        ProjectSummaryView {
            name: self.name@,
            path: self.path@,
            ecosystem: self.ecosystem@,
            items: items_view(self.items@),
            total_size: self.total_size as int,
            last_modified: self.last_modified,
        }
    }
}

pub open spec fn summaries_view(v: Seq<ProjectSummary>) -> Seq<ProjectSummaryView> {
    v.map_values(|p: ProjectSummary| p@)
}

impl View for ScanReport {
    type V = ScanReportView;

    open spec fn view(&self) -> ScanReportView {
        ScanReportView {
            categories: categories_view(self.categories@),
            total_size: self.total_size as int,
            projects: summaries_view(self.projects@),
        }
    }
}

/// Sum of the sizes of the items that were found.
pub open spec fn found_total(items: Seq<CacheItemView>) -> int
    decreases items.len(),
{
    if items.len() == 0 {
        0
    } else {
        found_total(items.drop_last()) + if items.last().status == ItemStatus::Found {
            items.last().size_bytes as int
        } else {
            0
        }
    }
}

/// Sum of the sizes of all items.
pub open spec fn size_total(items: Seq<CacheItemView>) -> int
    decreases items.len(),
{
    if items.len() == 0 {
        0
    } else {
        size_total(items.drop_last()) + items.last().size_bytes as int
    }
}

/// Sum of the totals of project reports.
pub open spec fn projects_total(projects: Seq<ProjectReportView>) -> int
    decreases projects.len(),
{
    if projects.len() == 0 {
        0
    } else {
        projects_total(projects.drop_last()) + projects.last().total_size
    }
}

/// Sum of the totals of category reports.
pub open spec fn categories_total(cats: Seq<CategoryReportView>) -> int
    decreases cats.len(),
{
    if cats.len() == 0 {
        0
    } else {
        categories_total(cats.drop_last()) + cats.last().total_size
    }
}

/// A project report's total is the size of what it found.
pub open spec fn project_consistent(p: ProjectReportView) -> bool {
    p.total_size == found_total(p.items)
}

/// A category's total is what its global items found plus the totals of its
/// projects, and each of its projects is consistent.
pub open spec fn category_consistent(c: CategoryReportView) -> bool {
    &&& c.total_size == found_total(c.global_items) + projects_total(c.projects)
    &&& forall|k: int| 0 <= k < c.projects.len() ==> project_consistent(#[trigger] c.projects[k])
}

} // verus!
