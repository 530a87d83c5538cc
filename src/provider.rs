use crate::json::{
    as_str_spec, as_u64_spec, fits_parser, follow, json_of, parse_json, step_spec,
    within_parser_limits, JsonValue, Step,
};
use vstd::prelude::*;
use vstd::string::{StringExecFns, StringSliceAdditionalSpecFns};

verus! {

/// One search result: the provider's identifier and the name to show.
#[derive(Debug, PartialEq, Eq)]
pub struct Track {
    pub id: u64,
    pub name: String,
}

impl View for Track {
    type V = (u64, Seq<char>);

    open spec fn view(&self) -> (u64, Seq<char>) {
        (self.id, self.name@)
    }
}

/// Why one element of a result list gives no track.
#[derive(Debug, PartialEq, Eq, Structural, Clone, Copy)]
pub enum FieldError {
    /// The display name is missing or not a string.
    MissingName,
    /// The identifier is missing or not an unsigned integer.
    MissingId,
}

/// Where one provider keeps its data: the path to the result list in a search
/// response, the member names of a result's identifier and display name, and
/// the path to the playback address in a resolution response.
#[derive(Debug, PartialEq, Eq)]
pub struct ProviderConfig {
    pub list_path: Vec<Step>,
    pub id_field: String,
    pub name_field: String,
    pub url_path: Vec<Step>,
}

/// The name given to a result whose display name is missing or not a string.
pub open spec fn placeholder_name() -> Seq<char> {
    "error name"@
}

/// The display name of one result, where it is there and a string.
pub open spec fn name_field_spec(e: JsonValue, field: String) -> Option<Seq<char>> {
    match step_spec(e, Step::Key(field)) {
        Some(v) => as_str_spec(v),
        None => None,
    }
}

/// The identifier of one result, where it is there and an unsigned integer.
pub open spec fn id_field_spec(e: JsonValue, field: String) -> Option<u64> {
    match step_spec(e, Step::Key(field)) {
        Some(v) => as_u64_spec(v),
        None => None,
    }
}

/// The display name of one result, or the placeholder.
pub open spec fn name_spec(e: JsonValue, field: String) -> Seq<char> {
    match name_field_spec(e, field) {
        Some(s) => s,
        None => placeholder_name(),
    }
}

/// The identifier of one result, or zero.
pub open spec fn id_spec(e: JsonValue, field: String) -> u64 {
    match id_field_spec(e, field) {
        Some(n) => n,
        None => 0,
    }
}

/// The track that one element of the result list gives.
pub open spec fn track_spec(cfg: ProviderConfig, e: JsonValue) -> (u64, Seq<char>) {
    (id_spec(e, cfg.id_field), name_spec(e, cfg.name_field))
}

/// The tracks of a search response, in the provider's order: none where the
/// result list is missing or is not a list.
pub open spec fn tracks_spec(cfg: ProviderConfig, doc: JsonValue) -> Seq<(u64, Seq<char>)> {
    match follow(doc, cfg.list_path@) {
        Some(JsonValue::Array(items)) => items@.map_values(|e: JsonValue| track_spec(cfg, e)),
        _ => Seq::empty(),
    }
}

/// The tracks of the elements that have both a name and an identifier, in
/// order; the others are left out.
pub open spec fn complete_tracks(cfg: ProviderConfig, items: Seq<JsonValue>) -> Seq<(u64, Seq<char>)>
    decreases items.len(),
{
    if items.len() == 0 {
        Seq::empty()
    } else {
        let prev = complete_tracks(cfg, items.drop_last());
        let e = items.last();
        if name_field_spec(e, cfg.name_field) is Some && id_field_spec(e, cfg.id_field) is Some {
            prev.push(track_spec(cfg, e))
        } else {
            prev
        }
    }
}

/// The complete tracks of a search response: none where the result list is
/// missing or is not a list.
pub open spec fn complete_tracks_spec(cfg: ProviderConfig, doc: JsonValue) -> Seq<(u64, Seq<char>)> {
    match follow(doc, cfg.list_path@) {
        Some(JsonValue::Array(items)) => complete_tracks(cfg, items@),
        _ => Seq::empty(),
    }
}

/// The complete tracks of a search response text; none where the text is
/// beyond the parser's limits or is not JSON.
pub open spec fn complete_tracks_of_text(cfg: ProviderConfig, text: &str) -> Seq<(u64, Seq<char>)> {
    if !within_parser_limits(text.spec_bytes()) {
        Seq::empty()
    } else {
        match json_of(text@) {
            Some(doc) => complete_tracks_spec(cfg, doc),
            None => Seq::empty(),
        }
    }
}

/// The tracks of a search response text; none where the text is beyond the
/// parser's limits or is not JSON.
pub open spec fn tracks_of_text(cfg: ProviderConfig, text: &str) -> Seq<(u64, Seq<char>)> {
    if !within_parser_limits(text.spec_bytes()) {
        Seq::empty()
    } else {
        match json_of(text@) {
            Some(doc) => tracks_spec(cfg, doc),
            None => Seq::empty(),
        }
    }
}

/// The playback address of a resolution response, empty where there is none.
pub open spec fn url_spec(cfg: ProviderConfig, doc: JsonValue) -> Seq<char> {
    match follow(doc, cfg.url_path@) {
        Some(v) => match as_str_spec(v) {
            Some(s) => s,
            None => Seq::empty(),
        },
        None => Seq::empty(),
    }
}

/// The playback address of a resolution response text, empty where there is
/// none or the text is beyond the parser's limits.
pub open spec fn url_of_text(cfg: ProviderConfig, text: &str) -> Seq<char> {
    if !within_parser_limits(text.spec_bytes()) {
        Seq::empty()
    } else {
        match json_of(text@) {
            Some(doc) => url_spec(cfg, doc),
            None => Seq::empty(),
        }
    }
}

/// The views of a sequence of tracks.
pub open spec fn tracks_view(ts: Seq<Track>) -> Seq<(u64, Seq<char>)> {
    ts.map_values(|t: Track| t@)
}

impl ProviderConfig {
    /// The display name of one result, where it is there and a string.
    pub fn name_in<'a>(&self, e: &'a JsonValue) -> (r: Option<&'a String>)
        ensures
            match r {
                Some(s) => name_field_spec(*e, self.name_field) == Some(s@),
                None => name_field_spec(*e, self.name_field) is None,
            },
    {
        match e.find(&self.name_field) {
            Some(v) => v.as_string(),
            None => None,
        }
    }

    /// The identifier of one result, where it is there and an unsigned integer.
    pub fn id_in(&self, e: &JsonValue) -> (r: Option<u64>)
        ensures
            r == id_field_spec(*e, self.id_field),
    {
        match e.find(&self.id_field) {
            Some(v) => v.as_u64(),
            None => None,
        }
    }

    /// The track that one element of the result list gives, or which field
    /// it lacks (the name is looked at first).
    pub fn read_track(&self, e: &JsonValue) -> (r: Result<Track, FieldError>)
        ensures
            match r {
                Ok(t) => name_field_spec(*e, self.name_field) == Some(t.name@)
                    && id_field_spec(*e, self.id_field) == Some(t.id),
                Err(FieldError::MissingName) => name_field_spec(*e, self.name_field) is None,
                Err(FieldError::MissingId) => name_field_spec(*e, self.name_field) is Some
                    && id_field_spec(*e, self.id_field) is None,
            },
    {
        match self.name_in(e) {
            None => Err(FieldError::MissingName),
            Some(name) => match self.id_in(e) {
                None => Err(FieldError::MissingId),
                Some(id) => Ok(Track { id, name: name.clone() }),
            },
        }
    }

    /// The track that one element of the result list gives: a missing or
    /// wrongly typed name becomes the placeholder, a missing identifier zero.
    pub fn track_of(&self, e: &JsonValue) -> (r: Track)
        ensures
            r@ == track_spec(*self, *e),
    {
        let name = match self.name_in(e) {
            Some(s) => s.clone(),
            None => String::from_str("error name"),
        };
        let id = match self.id_in(e) {
            Some(n) => n,
            None => 0,
        };
        Track { id, name }
    }

    /// The tracks of a parsed search response, in the provider's order.
    pub fn tracks_in(&self, doc: &JsonValue) -> (r: Vec<Track>)
        ensures
            tracks_view(r@) == tracks_spec(*self, *doc),
            follow(*doc, self.list_path@) is None ==> r@.len() == 0,
    {
        let mut out: Vec<Track> = Vec::new();
        match doc.follow_path(&self.list_path) {
            Some(JsonValue::Array(items)) => {
                let mut i: usize = 0;
                while i < items.len()
                    invariant
                        i <= items@.len(),
                        out@.len() == i,
                        forall|k: int| 0 <= k < i ==> out@[k]@ == track_spec(*self, items@[k]),
                    decreases items@.len() - i,
                {
                    let t = self.track_of(&items[i]);
                    out.push(t);
                    i = i + 1;
                }
                assert(tracks_view(out@) =~= items@.map_values(|e: JsonValue| track_spec(*self, e)));
            },
            _ => {
                assert(tracks_view(out@) =~= Seq::<(u64, Seq<char>)>::empty());
            },
        }
        out
    }

    /// The tracks of a parsed search response that have both a name and an
    /// identifier, in the provider's order; elements that lack either are
    /// skipped rather than filled in.
    pub fn complete_tracks_in(&self, doc: &JsonValue) -> (r: Vec<Track>)
        ensures
            tracks_view(r@) == complete_tracks_spec(*self, *doc),
    {
        let mut out: Vec<Track> = Vec::new();
        match doc.follow_path(&self.list_path) {
            Some(JsonValue::Array(items)) => {
                let mut i: usize = 0;
                assert(items@.take(0) =~= Seq::<JsonValue>::empty());
                assert(tracks_view(out@) =~= Seq::<(u64, Seq<char>)>::empty());
                while i < items.len()
                    invariant
                        i <= items@.len(),
                        tracks_view(out@) == complete_tracks(*self, items@.take(i as int)),
                    decreases items@.len() - i,
                {
                    assert(items@.take(i + 1).drop_last() =~= items@.take(i as int));
                    assert(items@.take(i + 1).last() == items@[i as int]);
                    match self.read_track(&items[i]) {
                        Ok(t) => {
                            let ghost before = out@;
                            out.push(t);
                            assert(tracks_view(out@) =~= tracks_view(before).push(t@));
                        },
                        Err(_) => {},
                    }
                    i = i + 1;
                }
                assert(items@.take(i as int) =~= items@);
            },
            _ => {
                assert(tracks_view(out@) =~= Seq::<(u64, Seq<char>)>::empty());
            },
        }
        out
    }

    /// The complete tracks of a search response text; none where it is beyond
    /// the parser's limits or is not JSON.
    pub fn parse_complete_tracks(&self, text: &str) -> (r: Vec<Track>)
        ensures
            tracks_view(r@) == complete_tracks_of_text(*self, text),
    {
        let parsed = if fits_parser(text) {
            parse_json(text)
        } else {
            None
        };
        match parsed {
            Some(doc) => self.complete_tracks_in(&doc),
            None => {
                let out: Vec<Track> = Vec::new();
                assert(tracks_view(out@) =~= Seq::<(u64, Seq<char>)>::empty());
                out
            },
        }
    }

    /// The tracks of a search response text; none where it is beyond the
    /// parser's limits or is not JSON.
    pub fn parse_tracks(&self, text: &str) -> (r: Vec<Track>)
        ensures
            tracks_view(r@) == tracks_of_text(*self, text),
    {
        let parsed = if fits_parser(text) {
            parse_json(text)
        } else {
            None
        };
        match parsed {
            Some(doc) => self.tracks_in(&doc),
            None => {
                let out: Vec<Track> = Vec::new();
                assert(tracks_view(out@) =~= Seq::<(u64, Seq<char>)>::empty());
                out
            },
        }
    }

    /// The playback address in a parsed resolution response, empty where the
    /// address is missing or not a string.
    pub fn url_in(&self, doc: &JsonValue) -> (r: String)
        ensures
            r@ == url_spec(*self, *doc),
    {
        match doc.follow_path(&self.url_path) {
            Some(v) => match v.as_string() {
                Some(s) => s.clone(),
                None => String::new(),
            },
            None => String::new(),
        }
    }

    /// The playback address in a resolution response text, empty where the
    /// text is beyond the parser's limits, is not JSON or holds no address.
    pub fn parse_url(&self, text: &str) -> (r: String)
        ensures
            r@ == url_of_text(*self, text),
    {
        let parsed = if fits_parser(text) {
            parse_json(text)
        } else {
            None
        };
        match parsed {
            Some(doc) => self.url_in(&doc),
            None => String::new(),
        }
    }
}

} // verus!
