use vstd::prelude::*;
use vstd::string::*;

verus! {

/// One entry of a directory listing: a link to `path` labelled `name`.
pub open spec fn listing_item(path: Seq<char>, name: Seq<char>) -> Seq<char> {
    "<li><a href=\""@ + path + "\">"@ + name + "</a></li>"@
}

/// The entries of a directory listing, in order.
pub open spec fn listing_items(entries: Seq<(Seq<char>, Seq<char>)>) -> Seq<char>
    decreases entries.len(),
{
    if entries.len() == 0 {
        Seq::empty()
    } else {
        listing_items(entries.drop_last()) + listing_item(entries.last().0, entries.last().1)
    }
}

/// The HTML page that lists a directory.
pub open spec fn listing_page(entries: Seq<(Seq<char>, Seq<char>)>) -> Seq<char> {
    "<html><body><ul>"@ + listing_items(entries) + "</ul></body></html>"@
}

pub open spec fn entry_views(entries: Seq<(String, String)>) -> Seq<(Seq<char>, Seq<char>)> {
    entries.map_values(|e: (String, String)| (e.0@, e.1@))
}

/// Renders the HTML page that lists a directory, given each entry's path
/// and file name.
pub fn render_listing(entries: &Vec<(String, String)>) -> (r: String)
    ensures
        r@ == listing_page(entry_views(entries@)),
{
    let mut items = String::new();
    let mut i: usize = 0;
    while i < entries.len()
        invariant
            i <= entries@.len(),
            items@ == listing_items(entry_views(entries@.subrange(0, i as int))),
        decreases entries@.len() - i,
    {
        let ghost before = items@;
        items.append("<li><a href=\"");
        items.append(entries[i].0.as_str());
        items.append("\">");
        items.append(entries[i].1.as_str());
        items.append("</a></li>");
        proof {
            let done = entry_views(entries@.subrange(0, i + 1));
            assert(done.drop_last() =~= entry_views(entries@.subrange(0, i as int)));
            assert(items@ =~= before + listing_item(entries@[i as int].0@, entries@[i as int].1@));
        }
        i = i + 1;
    }
    assert(entries@.subrange(0, i as int) =~= entries@);
    let mut page = String::new();
    page.append("<html><body><ul>");
    page.append(items.as_str());
    page.append("</ul></body></html>");
    page
}

} // verus!
