//! The options of an export, and their builder.

use vstd::prelude::*;
use crate::error::opt_view;
use crate::export::filter::{Filter, FilterView};
use crate::export::format::ExportFormat;

verus! {

/// How a configuration is exported.
#[derive(Debug)]
pub struct ExportOptions {
    /// The output format.
    pub format: ExportFormat,
    /// Whether to pretty-print, where the format has a choice.
    pub pretty: bool,
    /// Whether to include metadata.
    pub include_metadata: bool,
    /// Whether to include comments.
    pub include_comments: bool,
    /// Whether to write the compact form.
    pub compact: bool,
    /// The filter to apply first, if any.
    pub filter: Option<Filter>,
    /// The template to use, if any.
    pub template: Option<String>,
}

/// The mathematical value of [`ExportOptions`].
pub struct ExportOptionsView {
    pub format: ExportFormat,
    pub pretty: bool,
    pub include_metadata: bool,
    pub include_comments: bool,
    pub compact: bool,
    pub filter: Option<FilterView>,
    pub template: Option<Seq<char>>,
}

/// The value of an optional filter.
pub open spec fn filter_view(o: Option<Filter>) -> Option<FilterView> {
    match o {
        Some(f) => Some(f@),
        None => None,
    }
}

impl View for ExportOptions {
    type V = ExportOptionsView;

    open spec fn view(&self) -> ExportOptionsView {
        ExportOptionsView {
            format: self.format,
            pretty: self.pretty,
            include_metadata: self.include_metadata,
            include_comments: self.include_comments,
            compact: self.compact,
            filter: filter_view(self.filter),
            template: opt_view(self.template),
        }
    }
}

impl ExportOptionsView {
    /// The options in force where none is given: pretty JSON with metadata,
    /// without comments, not compact, unfiltered, without a template.
    pub open spec fn defaults() -> ExportOptionsView {
        ExportOptionsView {
            format: ExportFormat::Json,
            pretty: true,
            include_metadata: true,
            include_comments: false,
            compact: false,
            filter: None,
            template: None,
        }
    }
}

impl Default for ExportOptions {
    fn default() -> (r: ExportOptions)
        ensures
            r@ == ExportOptionsView::defaults(),
    {
        ExportOptions {
            format: ExportFormat::Json,
            pretty: true,
            include_metadata: true,
            include_comments: false,
            compact: false,
            filter: None,
            template: None,
        }
    }
}

impl Clone for ExportOptions {
    fn clone(&self) -> (r: ExportOptions)
        ensures
            r@ == self@,
    {
        ExportOptions {
            format: self.format,
            pretty: self.pretty,
            include_metadata: self.include_metadata,
            include_comments: self.include_comments,
            compact: self.compact,
            filter: match &self.filter {
                Some(f) => Some(f.clone()),
                None => None,
            },
            template: match &self.template {
                Some(t) => Some(t.clone()),
                None => None,
            },
        }
    }
}

impl ExportOptions {
    /// A builder in which nothing is set yet.
    pub fn builder() -> (r: ExportOptionsBuilder)
        ensures
            r@ == ExportOptionsBuilderView::unset(),
    {
        ExportOptionsBuilder {
            format: None,
            pretty: None,
            include_metadata: None,
            include_comments: None,
            compact: None,
            filter: None,
            template: None,
        }
    }
}

/// A builder of [`ExportOptions`]: what is not set takes its default.
#[derive(Debug)]
pub struct ExportOptionsBuilder {
    format: Option<ExportFormat>,
    pretty: Option<bool>,
    include_metadata: Option<bool>,
    include_comments: Option<bool>,
    compact: Option<bool>,
    filter: Option<Filter>,
    template: Option<String>,
}

/// What an [`ExportOptionsBuilder`] has been told so far.
pub struct ExportOptionsBuilderView {
    pub format: Option<ExportFormat>,
    pub pretty: Option<bool>,
    pub include_metadata: Option<bool>,
    pub include_comments: Option<bool>,
    pub compact: Option<bool>,
    pub filter: Option<FilterView>,
    pub template: Option<Seq<char>>,
}

impl ExportOptionsBuilderView {
    /// Nothing set.
    pub open spec fn unset() -> ExportOptionsBuilderView {
        ExportOptionsBuilderView {
            format: None,
            pretty: None,
            include_metadata: None,
            include_comments: None,
            compact: None,
            filter: None,
            template: None,
        }
    }

    /// The options that `build` makes: each one as set, or its default.
    pub open spec fn built(self) -> ExportOptionsView {
        let d = ExportOptionsView::defaults();
        ExportOptionsView {
            format: self.format.unwrap_or(d.format),
            pretty: self.pretty.unwrap_or(d.pretty),
            include_metadata: self.include_metadata.unwrap_or(d.include_metadata),
            include_comments: self.include_comments.unwrap_or(d.include_comments),
            compact: self.compact.unwrap_or(d.compact),
            filter: self.filter,
            template: self.template,
        }
    }
}

impl View for ExportOptionsBuilder {
    type V = ExportOptionsBuilderView;

    closed spec fn view(&self) -> ExportOptionsBuilderView {
        ExportOptionsBuilderView {
            format: self.format,
            pretty: self.pretty,
            include_metadata: self.include_metadata,
            include_comments: self.include_comments,
            compact: self.compact,
            filter: filter_view(self.filter),
            template: opt_view(self.template),
        }
    }
}

impl Default for ExportOptionsBuilder {
    fn default() -> (r: ExportOptionsBuilder)
        ensures
            r@ == ExportOptionsBuilderView::unset(),
    {
        ExportOptions::builder()
    }
}

impl ExportOptionsBuilder {
    /// Sets the format.
    pub fn format(self, format: ExportFormat) -> (r: ExportOptionsBuilder)
        ensures
            r@ == (ExportOptionsBuilderView { format: Some(format), ..self@ }),
    {
        let mut b = self;
        b.format = Some(format);
        b
    }

    /// Sets whether to pretty-print.
    pub fn pretty(self, pretty: bool) -> (r: ExportOptionsBuilder)
        ensures
            r@ == (ExportOptionsBuilderView { pretty: Some(pretty), ..self@ }),
    {
        let mut b = self;
        b.pretty = Some(pretty);
        b
    }

    /// Sets whether to include metadata.
    pub fn include_metadata(self, on: bool) -> (r: ExportOptionsBuilder)
        ensures
            r@ == (ExportOptionsBuilderView { include_metadata: Some(on), ..self@ }),
    {
        let mut b = self;
        b.include_metadata = Some(on);
        b
    }

    /// Sets whether to include comments.
    pub fn include_comments(self, on: bool) -> (r: ExportOptionsBuilder)
        ensures
            r@ == (ExportOptionsBuilderView { include_comments: Some(on), ..self@ }),
    {
        let mut b = self;
        b.include_comments = Some(on);
        b
    }

    /// Sets whether to write the compact form.
    pub fn compact(self, compact: bool) -> (r: ExportOptionsBuilder)
        ensures
            r@ == (ExportOptionsBuilderView { compact: Some(compact), ..self@ }),
    {
        let mut b = self;
        b.compact = Some(compact);
        b
    }

    /// Sets the filter.
    pub fn filter(self, filter: Filter) -> (r: ExportOptionsBuilder)
        ensures
            r@ == (ExportOptionsBuilderView { filter: Some(filter@), ..self@ }),
    {
        let mut b = self;
        b.filter = Some(filter);
        b
    }

    /// Sets the template.
    pub fn template(self, template: &str) -> (r: ExportOptionsBuilder)
        ensures
            r@ == (ExportOptionsBuilderView { template: Some(template@), ..self@ }),
    {
        let mut b = self;
        b.template = Some(template.to_owned());
        b
    }

    /// The options: each one as set, or its default.
    pub fn build(self) -> (r: ExportOptions)
        ensures
            r@ == self@.built(),
    {
        ExportOptions {
            format: match self.format {
                Some(f) => f,
                None => ExportFormat::Json,
            },
            pretty: match self.pretty {
                Some(b) => b,
                None => true,
            },
            include_metadata: match self.include_metadata {
                Some(b) => b,
                None => true,
            },
            include_comments: match self.include_comments {
                Some(b) => b,
                None => false,
            },
            compact: match self.compact {
                Some(b) => b,
                None => false,
            },
            filter: self.filter,
            template: self.template,
        }
    }
}

} // verus!
