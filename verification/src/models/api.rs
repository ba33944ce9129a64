use vstd::prelude::*;
use crate::models::{Printer, PrinterView};

verus! {

/// One printer record as the remote directory holds it. `system_name`
/// carries the local spooler's stable queue name; records created before
/// that field existed lack it and are matched by display name instead.
pub struct ApiPrinter {
    pub id: Option<u32>,
    pub name: String,
    pub system_name: Option<String>,
    pub uri: Option<String>,
    pub location: Option<String>,
    pub make_and_model: Option<String>,
    pub media_sizes: Vec<String>,
    pub spooler_name: String,
    pub is_active: Option<bool>,
}

/// Mathematical image of an `ApiPrinter`.
#[verifier::ext_equal]
pub struct ApiPrinterView {
    pub id: Option<u32>,
    pub name: Seq<char>,
    pub system_name: Option<Seq<char>>,
    pub uri: Option<Seq<char>>,
    pub location: Option<Seq<char>>,
    pub make_and_model: Option<Seq<char>>,
    pub media_sizes: Seq<Seq<char>>,
    pub spooler_name: Seq<char>,
    pub is_active: Option<bool>,
}

impl View for ApiPrinter {
    type V = ApiPrinterView;

    open spec fn view(&self) -> ApiPrinterView {
        ApiPrinterView {
            id: self.id,
            name: self.name@,
            system_name: self.system_name.deep_view(),
            uri: self.uri.deep_view(),
            location: self.location.deep_view(),
            make_and_model: self.make_and_model.deep_view(),
            media_sizes: self.media_sizes.deep_view(),
            spooler_name: self.spooler_name@,
            is_active: self.is_active,
        }
    }
}

impl DeepView for ApiPrinter {
    type V = ApiPrinterView;

    open spec fn deep_view(&self) -> ApiPrinterView {
        self.view()
    }
}

/// The record body sent for a printer that reports no page sizes: the
/// directory requires at least one, so a single default is substituted.
pub open spec fn spec_outgoing_media_sizes(sizes: Seq<Seq<char>>) -> Seq<Seq<char>> {
    if sizes.len() == 0 {
        seq!["A4"@]
    } else {
        sizes
    }
}

/// Envelope of the remote printer listing.
pub struct ApiPrinterResponse {
    pub status: u16,
    pub data: ApiPrinterData,
}

/// Payload of the remote printer listing.
pub struct ApiPrinterData {
    pub data: Vec<ApiPrinter>,
}

impl Printer {
    /// The record body that creates or updates this printer in the remote
    /// directory, scoped to this agent's instance identity. An empty page
    /// size list is replaced by a single default size.
    pub fn to_api(&self, spooler_name: &String) -> (r: ApiPrinter)
        ensures
            r@ == (ApiPrinterView {
                id: self@.remote_id,
                name: self@.display_name,
                system_name: Some(self@.stable_id),
                uri: Some(self@.uri),
                location: Some(self@.location),
                make_and_model: Some(self@.driver_info),
                media_sizes: spec_outgoing_media_sizes(self@.media_sizes),
                spooler_name: spooler_name@,
                is_active: Some(true),
            }),
    {
        let media_sizes: Vec<String> = if self.media_sizes.len() == 0 {
            let mut m: Vec<String> = Vec::new();
            m.push("A4".to_owned());
            proof {
                assert(m.deep_view() =~= seq!["A4"@]);
            }
            m
        } else {
            crate::models::clone_string_vec(&self.media_sizes)
        };
        ApiPrinter {
            id: self.remote_id,
            name: self.display_name.clone(),
            system_name: Some(self.stable_id.clone()),
            uri: Some(self.uri.clone()),
            location: Some(self.location.clone()),
            make_and_model: Some(self.driver_info.clone()),
            media_sizes,
            spooler_name: spooler_name.clone(),
            is_active: Some(true),
        }
    }
}

impl ApiPrinter {
    /// The local image of a remote record: the stable id falls back to the
    /// display name for records that never carried one, and absent
    /// descriptive fields become empty text.
    pub fn to_printer(&self) -> (p: Printer)
        ensures
            p@ == (PrinterView {
                display_name: self@.name,
                stable_id: if self@.system_name is Some {
                    self@.system_name->0
                } else {
                    self@.name
                },
                uri: if self@.uri is Some {
                    self@.uri->0
                } else {
                    Seq::<char>::empty()
                },
                description: Seq::<char>::empty(),
                location: if self@.location is Some {
                    self@.location->0
                } else {
                    Seq::<char>::empty()
                },
                driver_info: if self@.make_and_model is Some {
                    self@.make_and_model->0
                } else {
                    Seq::<char>::empty()
                },
                media_sizes: self@.media_sizes,
                remote_id: self@.id,
            }),
    {
        let stable_id: String = match &self.system_name {
            Some(s) => s.clone(),
            None => self.name.clone(),
        };
        let uri: String = match &self.uri {
            Some(s) => s.clone(),
            None => String::new(),
        };
        let location: String = match &self.location {
            Some(s) => s.clone(),
            None => String::new(),
        };
        let driver_info: String = match &self.make_and_model {
            Some(s) => s.clone(),
            None => String::new(),
        };
        Printer {
            display_name: self.name.clone(),
            stable_id,
            uri,
            description: String::new(),
            location,
            driver_info,
            media_sizes: crate::models::clone_string_vec(&self.media_sizes),
            remote_id: self.id,
        }
    }
}

} // verus!
