use crate::actions::{unchanged, Outcome};
use crate::effects::Effect;
use crate::model::{spec_visible, AppModel, AppModelView};
use crate::models::{AttachmentDataView, MessageSummary, MessageSummaryView};
use crate::seqs::view_all;
use crate::sync::step_select_folder;
use crate::sync_exec::messages_result_view;
use crate::text::{
    is_blank, number_and_text, spec_decimal, spec_trim, text_and_text, three_texts, trimmed,
};
use vstd::prelude::*;
use vstd::string::*;

verus! {

/// The user opens the search field. Nothing happens while a dialog is open or the field
/// has the focus already.
pub open spec fn step_search_activate(m: AppModelView) -> Outcome {
    if m.show_setup_dialog || m.show_compose_dialog || m.search_focused {
        unchanged(m)
    } else {
        Outcome {
            model: AppModelView {
                search_active: true,
                search_focused: true,
                search_query: Seq::empty(),
                ..m
            },
            effects: seq![Effect::FocusSearch],
        }
    }
}

/// The user types in the search field.
pub open spec fn step_search_query_changed(m: AppModelView, query: Seq<char>) -> Outcome {
    unchanged(AppModelView { search_query: query, ..m })
}

/// The user starts the search. A query of nothing but white space is not searched for,
/// and without a cache there is nothing to search.
pub open spec fn step_search_execute(m: AppModelView) -> Outcome {
    if spec_trim(m.search_query).len() > 0 && m.has_cache {
        Outcome {
            model: AppModelView { status_message: "Searching..."@, ..m },
            effects: seq![Effect::CacheSearch],
        }
    } else {
        unchanged(m)
    }
}

/// The status line for search results.
pub open spec fn results_text(count: nat, query: Seq<char>) -> Seq<char> {
    if count > 0 {
        "Search: "@ + spec_decimal(count) + " results for \""@ + query + "\""@
    } else {
        "Search: no results for \""@ + query + "\""@
    }
}

/// The results of a search arrived and take the place of the list, or searching failed.
pub open spec fn step_search_results_loaded(
    m: AppModelView,
    result: Result<Seq<MessageSummaryView>, Seq<char>>,
) -> Outcome {
    match result {
        Ok(results) => unchanged(
            AppModelView {
                messages: results,
                selected_message: None,
                preview_body: Seq::empty(),
                preview_markdown: Seq::empty(),
                preview_attachments: Seq::empty(),
                collapsed_threads: Seq::empty(),
                has_more_messages: false,
                visible_indices: spec_visible(results, Seq::empty()),
                search_focused: false,
                status_message: results_text(results.len(), m.search_query),
                ..m
            },
        ),
        Err(e) => unchanged(
            AppModelView { search_focused: false, status_message: "Search failed: "@ + e, ..m },
        ),
    }
}

/// The user leaves the search, and the folder that was shown before is shown again; or,
/// where no search is on, closes the compose dialog.
pub open spec fn step_search_clear(m: AppModelView) -> Outcome {
    if m.search_active {
        let m1 = AppModelView {
            search_active: false,
            search_focused: false,
            search_query: Seq::empty(),
            ..m
        };
        match (m.active_account, m.selected_folder) {
            (Some(a), Some(f)) => step_select_folder(m1, a, f),
            _ => unchanged(m1),
        }
    } else {
        unchanged(AppModelView { show_compose_dialog: false, is_sending: false, ..m })
    }
}

impl AppModel {
    /// The user opens the search field.
    pub fn search_activate(&mut self) -> (effects: Vec<Effect>)
        ensures
            final(self)@ == step_search_activate(old(self)@).model,
            effects@ == step_search_activate(old(self)@).effects,
    {
        let mut effects: Vec<Effect> = Vec::new();
        if self.show_setup_dialog || self.show_compose_dialog || self.search_focused {
            return effects;
        }
        self.search_active = true;
        self.search_focused = true;
        self.search_query = String::new();
        effects.push(Effect::FocusSearch);
        assert(effects@ =~= seq![Effect::FocusSearch]);
        effects
    }

    /// The user types in the search field.
    pub fn search_query_changed(&mut self, query: String) -> (effects: Vec<Effect>)
        ensures
            final(self)@ == step_search_query_changed(old(self)@, query@).model,
            effects@ == step_search_query_changed(old(self)@, query@).effects,
    {
        self.search_query = query;
        Vec::new()
    }

    /// The query as it is handed to the full-text index: without white space around it.
    pub fn search_terms(&self) -> (q: String)
        ensures
            q@ == spec_trim(self@.search_query),
    {
        trimmed(self.search_query.as_str())
    }

    /// The user starts the search.
    pub fn search_execute(&mut self) -> (effects: Vec<Effect>)
        ensures
            final(self)@ == step_search_execute(old(self)@).model,
            effects@ == step_search_execute(old(self)@).effects,
    {
        let mut effects: Vec<Effect> = Vec::new();
        if !is_blank(self.search_query.as_str()) && self.has_cache {
            self.status_message = String::from_str("Searching...");
            effects.push(Effect::CacheSearch);
            assert(effects@ =~= seq![Effect::CacheSearch]);
        }
        effects
    }

    /// The status line for search results.
    fn results_status(&self, count: usize) -> (s: String)
        ensures
            s@ == results_text(count as nat, self@.search_query),
    {
        if count > 0 {
            let mut s = String::from_str("Search: ");
            let n = number_and_text(count, " results for \"");
            s.append(n.as_str());
            s.append(self.search_query.as_str());
            s.append("\"");
            assert(s@ =~= results_text(count as nat, self@.search_query));
            s
        } else {
            three_texts("Search: no results for \"", self.search_query.as_str(), "\"")
        }
    }

    /// The results of a search arrived, or searching failed.
    pub fn search_results_loaded(&mut self, result: Result<Vec<MessageSummary>, String>) -> (effects:
        Vec<Effect>)
        ensures
            final(self)@ == step_search_results_loaded(
                old(self)@,
                messages_result_view(result),
            ).model,
            effects@ == step_search_results_loaded(old(self)@, messages_result_view(result)).effects,
    {
        match result {
            Ok(results) => {
                assert(view_all(results@).len() == results.len());
                self.status_message = self.results_status(results.len());
                self.messages = results;
                self.selected_message = None;
                self.preview_body = String::new();
                self.preview_markdown = String::new();
                self.preview_attachments = Vec::new();
                self.collapsed_threads = Vec::new();
                self.has_more_messages = false;
                self.search_focused = false;
                assert(self@.preview_attachments =~= Seq::<AttachmentDataView>::empty());
                self.recompute_visible();
            },
            Err(e) => {
                self.search_focused = false;
                self.status_message = text_and_text("Search failed: ", e.as_str());
            },
        }
        Vec::new()
    }

    /// The user leaves the search, or closes the compose dialog.
    pub fn search_clear(&mut self) -> (effects: Vec<Effect>)
        ensures
            final(self)@ == step_search_clear(old(self)@).model,
            effects@ == step_search_clear(old(self)@).effects,
    {
        if self.search_active {
            self.search_active = false;
            self.search_focused = false;
            self.search_query = String::new();
            match (self.active_account, self.selected_folder) {
                (Some(a), Some(f)) => self.select_folder(a, f),
                _ => Vec::new(),
            }
        } else {
            self.show_compose_dialog = false;
            self.is_sending = false;
            Vec::new()
        }
    }
}

} // verus!
