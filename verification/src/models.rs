pub mod api;

use vstd::prelude::*;

verus! {

/// Runtime configuration of the agent. Read-mostly; the only field
/// rewritten while the agent runs is the API token.
#[derive(Clone, Debug)]
pub struct Config {
    pub instance_name: String,
    pub printer_check_interval: u64,
    pub job_check_interval: u64,
    pub flux_url: String,
    pub flux_api_token: Option<String>,
    pub api_port: u16,
    pub reverb_disabled: bool,
    pub reverb_app_id: String,
    pub reverb_app_key: String,
    pub reverb_app_secret: String,
    pub reverb_use_tls: bool,
    pub reverb_host: Option<String>,
    pub reverb_auth_endpoint: String,
}

impl Default for Config {
    /// The configuration used until an operator edits it.
    fn default() -> (c: Config)
        ensures
            c.instance_name@ == "default-instance"@,
            c.printer_check_interval == 5,
            c.job_check_interval == 2,
            c.flux_url@ == "http://example.com"@,
            c.flux_api_token is None,
            c.api_port == 8080,
            c.reverb_disabled == true,
            c.reverb_app_id@ == "default-app-id"@,
            c.reverb_app_key@ == "default-app-key"@,
            c.reverb_app_secret@ == "default-app-secret"@,
            c.reverb_use_tls == true,
            c.reverb_host is None,
            c.reverb_auth_endpoint@ == "http://example.com/auth"@,
    {
        Config {
            instance_name: "default-instance".to_owned(),
            printer_check_interval: 5,
            job_check_interval: 2,
            flux_url: "http://example.com".to_owned(),
            flux_api_token: None,
            api_port: 8080,
            reverb_disabled: true,
            reverb_app_id: "default-app-id".to_owned(),
            reverb_app_key: "default-app-key".to_owned(),
            reverb_app_secret: "default-app-secret".to_owned(),
            reverb_use_tls: true,
            reverb_host: None,
            reverb_auth_endpoint: "http://example.com/auth".to_owned(),
        }
    }
}

impl Config {
    /// Push ingestion and polling are mutually exclusive; this flag picks the mode.
    pub fn push_enabled(&self) -> (r: bool)
        ensures
            r == !self.reverb_disabled,
    {
        !self.reverb_disabled
    }

    /// Fold an opportunistically refreshed API token back into the shared
    /// configuration. The token is monotonically replaced, never merged:
    /// the refreshed value wins whenever one was produced, and no other
    /// field is touched.
    pub fn apply_token_refresh(&mut self, refreshed: Option<String>)
        ensures
            final(self).flux_api_token == if refreshed is Some {
                refreshed
            } else {
                old(self).flux_api_token
            },
            final(self).instance_name == old(self).instance_name,
            final(self).printer_check_interval == old(self).printer_check_interval,
            final(self).job_check_interval == old(self).job_check_interval,
            final(self).flux_url == old(self).flux_url,
            final(self).api_port == old(self).api_port,
            final(self).reverb_disabled == old(self).reverb_disabled,
            final(self).reverb_app_id == old(self).reverb_app_id,
            final(self).reverb_app_key == old(self).reverb_app_key,
            final(self).reverb_app_secret == old(self).reverb_app_secret,
            final(self).reverb_use_tls == old(self).reverb_use_tls,
            final(self).reverb_host == old(self).reverb_host,
            final(self).reverb_auth_endpoint == old(self).reverb_auth_endpoint,
    {
        match refreshed {
            Some(t) => {
                self.flux_api_token = Some(t);
            },
            None => {},
        }
    }
}

/// Body of a request against the direct-print endpoint.
pub struct PrintRequest {
    pub printer: String,
}

/// One local print queue as this agent knows it.
///
/// `stable_id` is the spooler's internal queue name and the reconciliation
/// key: it survives renames of the display name. `remote_id` is the
/// identifier the remote directory assigned on creation; it is carried
/// forward from the previously synced map and never invented locally.
pub struct Printer {
    pub display_name: String,
    pub stable_id: String,
    pub uri: String,
    pub description: String,
    pub location: String,
    pub driver_info: String,
    pub media_sizes: Vec<String>,
    pub remote_id: Option<u32>,
}

/// Mathematical image of a `Printer`: every text field as a character
/// sequence, so that contracts can state exact content equality.
#[verifier::ext_equal]
pub struct PrinterView {
    pub display_name: Seq<char>,
    pub stable_id: Seq<char>,
    pub uri: Seq<char>,
    pub description: Seq<char>,
    pub location: Seq<char>,
    pub driver_info: Seq<char>,
    pub media_sizes: Seq<Seq<char>>,
    pub remote_id: Option<u32>,
}

impl View for Printer {
    type V = PrinterView;

    open spec fn view(&self) -> PrinterView {
        PrinterView {
            display_name: self.display_name@,
            stable_id: self.stable_id@,
            uri: self.uri@,
            description: self.description@,
            location: self.location@,
            driver_info: self.driver_info@,
            media_sizes: self.media_sizes.deep_view(),
            remote_id: self.remote_id,
        }
    }
}

impl DeepView for Printer {
    type V = PrinterView;

    open spec fn deep_view(&self) -> PrinterView {
        self.view()
    }
}

/// Content equality of two printers: every field, page sizes included.
pub fn printers_equal(a: &Printer, b: &Printer) -> (r: bool)
    ensures
        r == (a@ == b@),
{
    let same = a.display_name.eq(&b.display_name) && a.stable_id.eq(&b.stable_id)
        && a.uri.eq(&b.uri) && a.description.eq(&b.description) && a.location.eq(&b.location)
        && a.driver_info.eq(&b.driver_info) && string_vecs_equal(&a.media_sizes, &b.media_sizes)
        && a.remote_id == b.remote_id;
    proof {
        if same {
            assert(a@ =~= b@);
        }
    }
    same
}

impl Printer {
    /// A printer as it comes out of a discovery pass: all descriptive
    /// fields filled in, no remote identity yet.
    pub fn discovered(
        display_name: String,
        stable_id: String,
        uri: String,
        description: String,
        location: String,
        driver_info: String,
        media_sizes: Vec<String>,
    ) -> (p: Printer)
        ensures
            p@ == (PrinterView {
                display_name: display_name@,
                stable_id: stable_id@,
                uri: uri@,
                description: description@,
                location: location@,
                driver_info: driver_info@,
                media_sizes: media_sizes.deep_view(),
                remote_id: None,
            }),
    {
        Printer {
            display_name,
            stable_id,
            uri,
            description,
            location,
            driver_info,
            media_sizes,
            remote_id: None,
        }
    }

    /// A field-for-field copy of this printer.
    pub fn duplicate(&self) -> (p: Printer)
        ensures
            p@ == self@,
    {
        Printer {
            display_name: self.display_name.clone(),
            stable_id: self.stable_id.clone(),
            uri: self.uri.clone(),
            description: self.description.clone(),
            location: self.location.clone(),
            driver_info: self.driver_info.clone(),
            media_sizes: clone_string_vec(&self.media_sizes),
            remote_id: self.remote_id,
        }
    }

    /// The same printer under a different remote identity.
    pub fn with_remote_id(&self, remote_id: Option<u32>) -> (p: Printer)
        ensures
            p@ == (PrinterView { remote_id, ..self@ }),
    {
        Printer {
            display_name: self.display_name.clone(),
            stable_id: self.stable_id.clone(),
            uri: self.uri.clone(),
            description: self.description.clone(),
            location: self.location.clone(),
            driver_info: self.driver_info.clone(),
            media_sizes: clone_string_vec(&self.media_sizes),
            remote_id,
        }
    }
}

/// Copy a list of strings, keeping every element's content.
pub fn clone_string_vec(v: &Vec<String>) -> (r: Vec<String>)
    ensures
        r.deep_view() == v.deep_view(),
{
    let mut r: Vec<String> = Vec::new();
    let mut i: usize = 0;
    while i < v.len()
        invariant
            i <= v.len(),
            r.len() == i,
            forall|j: int| 0 <= j < i ==> r.deep_view()[j] == v.deep_view()[j],
        decreases v.len() - i,
    {
        r.push(v[i].clone());
        i = i + 1;
    }
    proof {
        assert(r.deep_view() =~= v.deep_view());
    }
    r
}

/// Content equality of two string lists.
pub fn string_vecs_equal(a: &Vec<String>, b: &Vec<String>) -> (r: bool)
    ensures
        r == (a.deep_view() == b.deep_view()),
{
    proof {
        assert(a.deep_view().len() == a@.len());
        assert(b.deep_view().len() == b@.len());
    }
    if a.len() != b.len() {
        return false;
    }
    let mut i: usize = 0;
    while i < a.len()
        invariant
            a.len() == b.len(),
            i <= a.len(),
            forall|j: int| 0 <= j < i ==> a.deep_view()[j] == b.deep_view()[j],
        decreases a.len() - i,
    {
        if !a[i].eq(&b[i]) {
            assert(a.deep_view()[i as int] != b.deep_view()[i as int]);
            return false;
        }
        i = i + 1;
    }
    proof {
        assert(a.deep_view() =~= b.deep_view());
    }
    true
}

/// A list of printers, as the admin surface reports them.
pub struct PrinterList {
    pub printers: Vec<Printer>,
}

/// One pagination link of the remote job listing.
pub struct PageLink {
    pub url: Option<String>,
    pub label: String,
    pub active: bool,
}

/// Envelope of the remote job listing.
pub struct PrintJobResponse {
    pub status: u16,
    pub data: PrintJobPaginatedData,
}

/// Paginated page of print jobs, as the remote service shapes it.
pub struct PrintJobPaginatedData {
    pub current_page: u32,
    pub data: Vec<PrintJob>,
    pub first_page_url: String,
    pub from: Option<u32>,
    pub last_page: u32,
    pub last_page_url: String,
    pub links: Vec<PageLink>,
    pub next_page_url: Option<String>,
    pub path: String,
    pub per_page: u32,
    pub prev_page_url: Option<String>,
    pub to: Option<u32>,
    pub total: u32,
}

/// One print job as the remote service describes it. `media_id` names the
/// payload to download; `cups_job_id` is the local spooler handle once the
/// job has been submitted somewhere.
pub struct PrintJob {
    pub id: u32,
    pub media_id: u32,
    pub printer_id: Option<u32>,
    pub user_id: Option<u32>,
    pub quantity: u32,
    pub size: String,
    pub is_completed: bool,
    pub status: Option<String>,
    pub cups_job_id: Option<u64>,
    pub created_at: String,
    pub created_by: Option<u32>,
    pub updated_at: String,
    pub updated_by: Option<u32>,
    pub printer: Option<PrintJobPrinter>,
}

/// Printer relationship embedded in a job response.
pub struct PrintJobPrinter {
    pub id: u32,
    pub name: String,
    pub spooler_name: String,
    pub is_active: bool,
}

} // verus!
