//! The arguments of the command line, and the filters that they ask for.

use crate::filter::TagFilters;
use crate::parse::{parse_tag_filter, parsed_filters};
use crate::value_set::texts;
use std::path::PathBuf;
use vstd::prelude::*;

verus! {

/// `std::path::PathBuf`: a path in the file system. The library carries paths
/// and never looks into them.
#[verifier::external_type_specification]
#[verifier::external_body]
pub struct ExPathBuf(PathBuf);

/// What the command line asks for.
#[derive(Debug)]
pub struct AppArgs {
    /// The input files, read in this order.
    pub files: Vec<PathBuf>,
    /// The output file: one feature per line.
    pub output: PathBuf,
    /// The tag filters, each of the form `name=value|value|...`. An object
    /// has to pass all of them.
    pub tag_filters: Vec<String>,
}

impl AppArgs {
    /// The filters that `tag_filters` stand for. Where two of them have the
    /// same tag name, the later one counts.
    pub fn parse_tag_filters(&self) -> (filters: TagFilters)
        ensures
            filters@ == parsed_filters(texts(self.tag_filters@)),
    {
        let given = &self.tag_filters;
        let mut filters = TagFilters::new();
        let mut i: usize = 0;
        while i < given.len()
            invariant
                i <= given.len(),
                filters@ == parsed_filters(texts(given@).take(i as int)),
            decreases given.len() - i,
        {
            let (name, values) = parse_tag_filter(given[i].as_str());
            proof {
                let read = texts(given@).take(i + 1);
                assert(read.drop_last() =~= texts(given@).take(i as int));
            }
            filters.insert(name, values);
            i += 1;
        }
        proof {
            assert(texts(given@).take(i as int) =~= texts(given@));
        }
        filters
    }
}

} // verus!
