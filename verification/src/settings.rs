//! Plain application settings and the saved-games records they carry:
//! the data the embedding application persists in its settings file,
//! with the normalization applied when it is loaded.
use vstd::prelude::*;
use crate::manifest::clone_opt_string;
use crate::store::DownloadInfo;

verus! {

/// How a saved game is started.
#[derive(Debug)]
pub struct LaunchConfig {
    pub executable_path: String,
    pub launch_method: String,
    pub custom_command: Option<String>,
}

impl Clone for LaunchConfig {
    fn clone(&self) -> (r: Self)
        ensures
            r == *self,
    {
        LaunchConfig {
            executable_path: self.executable_path.clone(),
            launch_method: self.launch_method.clone(),
            custom_command: clone_opt_string(&self.custom_command),
        }
    }
}

/// A finished download remembered as an installed game.
#[derive(Debug)]
pub struct DownloadedGameInfo {
    pub id: String,
    pub filename: String,
    pub path: String,
    pub extracted: bool,
    pub extracted_path: Option<String>,
    pub downloaded_at: Option<String>,
    pub launch_config: Option<LaunchConfig>,
    pub icon_path: Option<String>,
}

impl Clone for DownloadedGameInfo {
    fn clone(&self) -> (r: Self)
        ensures
            r == *self,
    {
        DownloadedGameInfo {
            id: self.id.clone(),
            filename: self.filename.clone(),
            path: self.path.clone(),
            extracted: self.extracted,
            extracted_path: clone_opt_string(&self.extracted_path),
            downloaded_at: clone_opt_string(&self.downloaded_at),
            launch_config: match &self.launch_config {
                Some(c) => Some(c.clone()),
                None => None,
            },
            icon_path: clone_opt_string(&self.icon_path),
        }
    }
}

/// The persisted application settings.
#[derive(Debug)]
pub struct AppState {
    pub token: Option<String>,
    pub download_dir: Option<String>,
    pub games: Option<Vec<DownloadedGameInfo>>,
}

impl Default for AppState {
    fn default() -> (r: Self)
        ensures
            r.token is None,
            r.download_dir is None,
            r.games is None,
    {
        AppState { token: None, download_dir: None, games: None }
    }
}

impl AppState {
    /// Normalize freshly loaded settings: a missing game list becomes an
    /// empty one, and a missing download directory falls back to the
    /// platform default the caller supplies. Everything else is kept.
    pub fn normalize(&mut self, default_download_dir: Option<String>)
        ensures
            final(self).token == old(self).token,
            old(self).games is Some ==> final(self).games == old(self).games,
            old(self).games is None ==> (final(self).games matches Some(g) && g@.len() == 0),
            old(self).download_dir is Some ==> final(self).download_dir == old(
                self,
            ).download_dir,
            old(self).download_dir is None ==> final(self).download_dir == default_download_dir,
    {
        if self.games.is_none() {
            self.games = Some(Vec::new());
        }
        if self.download_dir.is_none() {
            self.download_dir = default_download_dir;
        }
    }
}

/// One article fetched from the content service, as the settings layer
/// passes it through to the interface.
#[derive(Debug)]
pub struct ArticleResponse {
    pub slug: String,
    pub title: String,
    pub content: String,
}

/// Remember finished downloads as installed games: each record keeps its
/// identity and extraction outcome, the result path defaults to empty,
/// and no launch configuration or icon is attached yet.
pub fn games_from_downloads(downloads: &Vec<DownloadInfo>) -> (r: Vec<DownloadedGameInfo>)
    ensures
        r@.len() == downloads@.len(),
        forall|i: int|
            0 <= i < r@.len() ==> {
                let d = #[trigger] downloads@[i];
                let g = r@[i];
                g.id == d.id && g.filename == d.filename && (g.path@ == match d.path {
                    Some(p) => p@,
                    None => Seq::<char>::empty(),
                }) && g.extracted == d.extracted && g.extracted_path == d.extracted_path
                    && g.downloaded_at == d.downloaded_at && g.launch_config is None
                    && g.icon_path is None
            },
{
    let mut out: Vec<DownloadedGameInfo> = Vec::new();
    let mut i: usize = 0;
    while i < downloads.len()
        invariant
            0 <= i <= downloads@.len(),
            out@.len() == i,
            forall|j: int|
                0 <= j < i ==> {
                    let d = #[trigger] downloads@[j];
                    let g = out@[j];
                    g.id == d.id && g.filename == d.filename && (g.path@ == match d.path {
                        Some(p) => p@,
                        None => Seq::<char>::empty(),
                    }) && g.extracted == d.extracted && g.extracted_path == d.extracted_path
                        && g.downloaded_at == d.downloaded_at && g.launch_config is None
                        && g.icon_path is None
                },
        decreases downloads@.len() - i,
    {
        let d = &downloads[i];
        let path = match &d.path {
            Some(p) => p.clone(),
            None => String::new(),
        };
        out.push(
            DownloadedGameInfo {
                id: d.id.clone(),
                filename: d.filename.clone(),
                path,
                extracted: d.extracted,
                extracted_path: clone_opt_string(&d.extracted_path),
                downloaded_at: clone_opt_string(&d.downloaded_at),
                launch_config: None,
                icon_path: None,
            },
        );
        i = i + 1;
    }
    out
}

} // verus!
