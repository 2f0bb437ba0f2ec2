//! Plug-ins: which directory entries of a plug-in category count as
//! plug-ins, and the grouping of found plug-ins by category.

use vstd::prelude::*;

use crate::text::{chars_eq_str, chars_of, contains_str, ends, ends_with_str, has_sub};
use crate::unicode::{str_to_lower, unicode_str_lower};

verus! {

/// A plug-in category: its name and the folders that hold its plug-ins.
#[derive(Clone, Debug)]
pub struct PluginCategory {
    pub name: String,
    pub paths: Vec<String>,
}

/// A found plug-in: an entry of a category folder.
#[derive(Debug)]
pub struct Plugin {
    pub name: String,
    pub path: String,
    pub category: String,
    pub is_directory: bool,
    pub size: u64,
}

/// Whether an entry of a category folder is a plug-in, by its lower-cased
/// name (and, for some categories, whether it is a folder). Audio and
/// unknown categories take every entry.
pub open spec fn plugin_included(name: Seq<char>, is_dir: bool, category: Seq<char>) -> bool {
    let n = unicode_str_lower(name);
    if category == "Audio"@ {
        true
    } else if category == "PreferencePanes"@ {
        ends(n, ".prefpane"@)
    } else if category == "QuickLook"@ {
        ends(n, ".qlgenerator"@)
    } else if category == "Screen Savers"@ {
        ends(n, ".saver"@)
    } else if category == "Internet Plug-Ins"@ {
        ends(n, ".plugin"@) || ends(n, ".webplugin"@)
    } else if category == "Core Image"@ {
        ends(n, ".plugin"@)
    } else if category == "ColorPickers"@ {
        ends(n, ".colorpicker"@)
    } else if category == "Fonts"@ {
        ends(n, ".ttf"@) || ends(n, ".otf"@) || ends(n, ".dfont"@) || ends(n, ".ttc"@)
    } else if category == "Dictionaries"@ {
        ends(n, ".dictionary"@)
    } else if category == "Automator"@ {
        ends(n, ".action"@) || ends(n, ".workflow"@)
    } else if category == "Safari Extensions"@ {
        ends(n, ".safariextz"@) || ends(n, ".appex"@)
    } else if category == "Motion Templates"@ {
        is_dir || has_sub(n, "template"@) || ends(n, ".motn"@)
    } else if category == "Spotlight"@ {
        ends(n, ".mdimporter"@)
    } else if category == "Services"@ {
        ends(n, ".service"@)
    } else if category == "Address Book"@ {
        is_dir || ends(n, ".plugin"@)
    } else if category == "Contextual Menu"@ {
        is_dir || ends(n, ".plugin"@) || ends(n, ".bundle"@)
    } else if category == "Input Methods"@ {
        is_dir || ends(n, ".app"@) || ends(n, ".bundle"@)
    } else if category == "Widgets"@ {
        ends(n, ".wdgt"@) || ends(n, ".appex"@)
    } else {
        true
    }
}

/// The categories with a rule of their own.
pub open spec fn ruled_categories() -> Seq<Seq<char>> {
    seq![
        "Audio"@,
        "PreferencePanes"@,
        "QuickLook"@,
        "Screen Savers"@,
        "Internet Plug-Ins"@,
        "Core Image"@,
        "ColorPickers"@,
        "Fonts"@,
        "Dictionaries"@,
        "Automator"@,
        "Safari Extensions"@,
        "Motion Templates"@,
        "Spotlight"@,
        "Services"@,
        "Address Book"@,
        "Contextual Menu"@,
        "Input Methods"@,
        "Widgets"@,
    ]
}

/// The category names differ in length or in their first letter.
proof fn lemma_category_names()
    ensures
        "Audio"@.len() == 5 && "Audio"@[0] == 'A',
        "PreferencePanes"@.len() == 15 && "PreferencePanes"@[0] == 'P',
        "QuickLook"@.len() == 9 && "QuickLook"@[0] == 'Q',
        "Screen Savers"@.len() == 13 && "Screen Savers"@[0] == 'S',
        "Internet Plug-Ins"@.len() == 17 && "Internet Plug-Ins"@[0] == 'I',
        "Core Image"@.len() == 10 && "Core Image"@[0] == 'C',
        "ColorPickers"@.len() == 12 && "ColorPickers"@[0] == 'C',
        "Fonts"@.len() == 5 && "Fonts"@[0] == 'F',
        "Dictionaries"@.len() == 12 && "Dictionaries"@[0] == 'D',
        "Automator"@.len() == 9 && "Automator"@[0] == 'A',
        "Safari Extensions"@.len() == 17 && "Safari Extensions"@[0] == 'S',
        "Motion Templates"@.len() == 16 && "Motion Templates"@[0] == 'M',
        "Spotlight"@.len() == 9 && "Spotlight"@[0] == 'S',
        "Services"@.len() == 8 && "Services"@[0] == 'S',
        "Address Book"@.len() == 12 && "Address Book"@[0] == 'A',
        "Contextual Menu"@.len() == 15 && "Contextual Menu"@[0] == 'C',
        "Input Methods"@.len() == 13 && "Input Methods"@[0] == 'I',
        "Widgets"@.len() == 7 && "Widgets"@[0] == 'W',
{
    reveal_strlit("Audio");
    reveal_strlit("PreferencePanes");
    reveal_strlit("QuickLook");
    reveal_strlit("Screen Savers");
    reveal_strlit("Internet Plug-Ins");
    reveal_strlit("Core Image");
    reveal_strlit("ColorPickers");
    reveal_strlit("Fonts");
    reveal_strlit("Dictionaries");
    reveal_strlit("Automator");
    reveal_strlit("Safari Extensions");
    reveal_strlit("Motion Templates");
    reveal_strlit("Spotlight");
    reveal_strlit("Services");
    reveal_strlit("Address Book");
    reveal_strlit("Contextual Menu");
    reveal_strlit("Input Methods");
    reveal_strlit("Widgets");
}

/// What a category takes, by the lower-case form of an entry's name: fonts
/// are exactly the `.ttf`, `.otf`, `.dfont` and `.ttc` files, and each other
/// category exactly the entries with its own extensions (some also every
/// folder, motion templates also names holding `template`); audio takes
/// every entry, as does a category with no rule of its own; and the letter
/// case of a name never matters.
pub proof fn law_plugin_kinds(name: Seq<char>, other: Seq<char>, is_dir: bool, category: Seq<char>)
    ensures
        ({
            let n = unicode_str_lower(name);
            plugin_included(name, is_dir, "Fonts"@) <==> (ends(n, ".ttf"@) || ends(n, ".otf"@) || ends(
                n,
                ".dfont"@,
            ) || ends(n, ".ttc"@))
        }),
        plugin_included(name, is_dir, "PreferencePanes"@) <==> (ends(unicode_str_lower(name), ".prefpane"@)),
        plugin_included(name, is_dir, "QuickLook"@) <==> (ends(unicode_str_lower(name), ".qlgenerator"@)),
        plugin_included(name, is_dir, "Screen Savers"@) <==> (ends(unicode_str_lower(name), ".saver"@)),
        plugin_included(name, is_dir, "Internet Plug-Ins"@) <==> (ends(unicode_str_lower(name), ".plugin"@) || ends(unicode_str_lower(name), ".webplugin"@)),
        plugin_included(name, is_dir, "Core Image"@) <==> (ends(unicode_str_lower(name), ".plugin"@)),
        plugin_included(name, is_dir, "ColorPickers"@) <==> (ends(unicode_str_lower(name), ".colorpicker"@)),
        plugin_included(name, is_dir, "Dictionaries"@) <==> (ends(unicode_str_lower(name), ".dictionary"@)),
        plugin_included(name, is_dir, "Automator"@) <==> (ends(unicode_str_lower(name), ".action"@) || ends(unicode_str_lower(name), ".workflow"@)),
        plugin_included(name, is_dir, "Safari Extensions"@) <==> (ends(unicode_str_lower(name), ".safariextz"@) || ends(unicode_str_lower(name), ".appex"@)),
        plugin_included(name, is_dir, "Motion Templates"@) <==> (is_dir || has_sub(unicode_str_lower(name), "template"@) || ends(unicode_str_lower(name), ".motn"@)),
        plugin_included(name, is_dir, "Spotlight"@) <==> (ends(unicode_str_lower(name), ".mdimporter"@)),
        plugin_included(name, is_dir, "Services"@) <==> (ends(unicode_str_lower(name), ".service"@)),
        plugin_included(name, is_dir, "Address Book"@) <==> (is_dir || ends(unicode_str_lower(name), ".plugin"@)),
        plugin_included(name, is_dir, "Contextual Menu"@) <==> (is_dir || ends(unicode_str_lower(name), ".plugin"@) || ends(unicode_str_lower(name), ".bundle"@)),
        plugin_included(name, is_dir, "Input Methods"@) <==> (is_dir || ends(unicode_str_lower(name), ".app"@) || ends(unicode_str_lower(name), ".bundle"@)),
        plugin_included(name, is_dir, "Widgets"@) <==> (ends(unicode_str_lower(name), ".wdgt"@) || ends(unicode_str_lower(name), ".appex"@)),
        plugin_included(name, is_dir, "Audio"@),
        !ruled_categories().contains(category) ==> plugin_included(name, is_dir, category),
        unicode_str_lower(name) == unicode_str_lower(other) ==> plugin_included(name, is_dir, category)
            == plugin_included(other, is_dir, category),
{
    lemma_category_names();
    if !ruled_categories().contains(category) {
        assert(ruled_categories()[0] == "Audio"@);
        assert(ruled_categories()[1] == "PreferencePanes"@);
        assert(ruled_categories()[2] == "QuickLook"@);
        assert(ruled_categories()[3] == "Screen Savers"@);
        assert(ruled_categories()[4] == "Internet Plug-Ins"@);
        assert(ruled_categories()[5] == "Core Image"@);
        assert(ruled_categories()[6] == "ColorPickers"@);
        assert(ruled_categories()[7] == "Fonts"@);
        assert(ruled_categories()[8] == "Dictionaries"@);
        assert(ruled_categories()[9] == "Automator"@);
        assert(ruled_categories()[10] == "Safari Extensions"@);
        assert(ruled_categories()[11] == "Motion Templates"@);
        assert(ruled_categories()[12] == "Spotlight"@);
        assert(ruled_categories()[13] == "Services"@);
        assert(ruled_categories()[14] == "Address Book"@);
        assert(ruled_categories()[15] == "Contextual Menu"@);
        assert(ruled_categories()[16] == "Input Methods"@);
        assert(ruled_categories()[17] == "Widgets"@);
    }
}

/// Whether an entry of a category folder is a plug-in (see
/// `plugin_included`).
pub fn should_include(name: &str, is_dir: bool, category: &str) -> (r: bool)
    ensures
        r == plugin_included(name@, is_dir, category@),
{
    let lower = str_to_lower(name);
    let n = chars_of(lower.as_str());
    let n = n.as_slice();
    let c = chars_of(category);
    let c = c.as_slice();
    if chars_eq_str(c, "Audio") {
        true
    } else if chars_eq_str(c, "PreferencePanes") {
        ends_with_str(n, ".prefpane")
    } else if chars_eq_str(c, "QuickLook") {
        ends_with_str(n, ".qlgenerator")
    } else if chars_eq_str(c, "Screen Savers") {
        ends_with_str(n, ".saver")
    } else if chars_eq_str(c, "Internet Plug-Ins") {
        ends_with_str(n, ".plugin") || ends_with_str(n, ".webplugin")
    } else if chars_eq_str(c, "Core Image") {
        ends_with_str(n, ".plugin")
    } else if chars_eq_str(c, "ColorPickers") {
        ends_with_str(n, ".colorpicker")
    } else if chars_eq_str(c, "Fonts") {
        ends_with_str(n, ".ttf") || ends_with_str(n, ".otf") || ends_with_str(n, ".dfont")
            || ends_with_str(n, ".ttc")
    } else if chars_eq_str(c, "Dictionaries") {
        ends_with_str(n, ".dictionary")
    } else if chars_eq_str(c, "Automator") {
        ends_with_str(n, ".action") || ends_with_str(n, ".workflow")
    } else if chars_eq_str(c, "Safari Extensions") {
        ends_with_str(n, ".safariextz") || ends_with_str(n, ".appex")
    } else if chars_eq_str(c, "Motion Templates") {
        is_dir || contains_str(n, "template") || ends_with_str(n, ".motn")
    } else if chars_eq_str(c, "Spotlight") {
        ends_with_str(n, ".mdimporter")
    } else if chars_eq_str(c, "Services") {
        ends_with_str(n, ".service")
    } else if chars_eq_str(c, "Address Book") {
        is_dir || ends_with_str(n, ".plugin")
    } else if chars_eq_str(c, "Contextual Menu") {
        is_dir || ends_with_str(n, ".plugin") || ends_with_str(n, ".bundle")
    } else if chars_eq_str(c, "Input Methods") {
        is_dir || ends_with_str(n, ".app") || ends_with_str(n, ".bundle")
    } else if chars_eq_str(c, "Widgets") {
        ends_with_str(n, ".wdgt") || ends_with_str(n, ".appex")
    } else {
        true
    }
}

// ---------------------------------------------------------------------------
// Grouping
// ---------------------------------------------------------------------------

/// The categories of the plug-ins, each once, in order of first appearance.
pub open spec fn first_categories(s: Seq<Plugin>) -> Seq<Seq<char>>
    decreases s.len(),
{
    if s.len() == 0 {
        Seq::empty()
    } else {
        let p = first_categories(s.drop_last());
        if p.contains(s.last().category@) {
            p
        } else {
            p.push(s.last().category@)
        }
    }
}

/// The plug-ins of one category, in their order.
pub open spec fn of_category(s: Seq<Plugin>, c: Seq<char>) -> Seq<Plugin>
    decreases s.len(),
{
    if s.len() == 0 {
        Seq::empty()
    } else if s.last().category@ == c {
        of_category(s.drop_last(), c).push(s.last())
    } else {
        of_category(s.drop_last(), c)
    }
}

/// The groups are the categories in order of first appearance, each with
/// its plug-ins in their order.
pub open spec fn grouped(s: Seq<Plugin>, g: Seq<(String, Vec<Plugin>)>) -> bool {
    &&& g.len() == first_categories(s).len()
    &&& forall|i: int|
        0 <= i < g.len() ==> (#[trigger] g[i]).0@ == first_categories(s)[i] && g[i].1@
            == of_category(s, g[i].0@)
}

/// Index of the group of a category, if there is one.
fn find_group(out: &Vec<(String, Vec<Plugin>)>, c: &String) -> (r: Option<usize>)
    ensures
        match r {
            Some(i) => i < out.len() && out@[i as int].0@ == c@,
            None => forall|i: int| 0 <= i < out.len() ==> out@[i].0@ != c@,
        },
{
    let mut i: usize = 0;
    while i < out.len()
        invariant
            i <= out.len(),
            forall|j: int| 0 <= j < i ==> out@[j].0@ != c@,
        decreases out.len() - i,
    {
        if crate::order::string_eq(&out[i].0, c) {
            return Some(i);
        }
        i = i + 1;
    }
    None
}

/// Plug-ins grouped by category (see `grouped`).
pub fn group_by_category(plugins: Vec<Plugin>) -> (r: Vec<(String, Vec<Plugin>)>)
    ensures
        grouped(plugins@, r@),
{
    let ghost orig = plugins@;
    let mut plugins = plugins;
    let mut out: Vec<(String, Vec<Plugin>)> = Vec::new();
    let ghost mut k: int = 0;
    while plugins.len() > 0
        invariant
            0 <= k <= orig.len(),
            plugins@ == orig.subrange(k, orig.len() as int),
            grouped(orig.take(k), out@),
        decreases plugins.len(),
    {
        let ghost pre = orig.take(k);
        let ghost firsts = first_categories(pre);
        let p = plugins.remove(0);
        assert(p == orig[k]);
        let ghost now = orig.take(k + 1);
        assert(now.drop_last() =~= pre);
        assert(now.last() == p);
        match find_group(&out, &p.category) {
            Some(g) => {
                let ghost old_out = out@;
                let (name, mut list) = out.remove(g);
                list.push(p);
                out.insert(g, (name, list));
                proof {
                    assert(firsts.contains(p.category@)) by {
                        assert(firsts[g as int] == p.category@);
                    }
                    assert(first_categories(now) == firsts);
                    assert(out@ =~= old_out.update(g as int, out@[g as int]));
                    assert forall|i: int| 0 <= i < out@.len() implies (#[trigger] out@[i]).0@
                        == first_categories(now)[i] && out@[i].1@ == of_category(
                        now,
                        out@[i].0@,
                    ) by {
                        if i != g {
                            assert(out@[i] == old_out[i]);
                            assert(old_out[i].0@ != p.category@) by {
                                lemma_firsts_distinct(pre);
                            }
                        }
                    }
                }
            },
            None => {
                let ghost old_out = out@;
                let c = crate::text::owned(p.category.as_str());
                proof {
                    assert(!firsts.contains(p.category@)) by {
                        if firsts.contains(p.category@) {
                            let j = choose|j: int| 0 <= j < firsts.len() && firsts[j] == p.category@;
                            assert(old_out[j].0@ == p.category@);
                        }
                    }
                    lemma_of_category_absent(pre, p.category@);
                }
                let mut list: Vec<Plugin> = Vec::new();
                list.push(p);
                out.push((c, list));
                proof {
                    assert(first_categories(now) == firsts.push(p.category@));
                    assert forall|i: int| 0 <= i < out@.len() implies (#[trigger] out@[i]).0@
                        == first_categories(now)[i] && out@[i].1@ == of_category(
                        now,
                        out@[i].0@,
                    ) by {
                        if i < old_out.len() {
                            assert(out@[i] == old_out[i]);
                        } else {
                            assert(out@[i].1@ =~= seq![p]);
                            assert(of_category(pre, p.category@) =~= Seq::<Plugin>::empty());
                        }
                    }
                }
            },
        }
        proof {
            k = k + 1;
        }
        assert(plugins@ =~= orig.subrange(k, orig.len() as int));
    }
    assert(orig.take(k) =~= orig);
    out
}

/// The first-appearance categories are all different.
proof fn lemma_firsts_distinct(s: Seq<Plugin>)
    ensures
        forall|i: int, j: int|
            0 <= i < j < first_categories(s).len() ==> first_categories(s)[i]
                != first_categories(s)[j],
    decreases s.len(),
{
    if s.len() > 0 {
        lemma_firsts_distinct(s.drop_last());
        let p = first_categories(s.drop_last());
        if !p.contains(s.last().category@) {
            assert forall|i: int, j: int|
                0 <= i < j < first_categories(s).len() implies first_categories(s)[i]
                != first_categories(s)[j] by {
                if j == p.len() {
                    assert(first_categories(s)[i] == p[i]);
                }
            }
        }
    }
}

/// A category that does not appear among the first-appearance categories
/// has no plug-ins.
proof fn lemma_of_category_absent(s: Seq<Plugin>, c: Seq<char>)
    requires
        !first_categories(s).contains(c),
    ensures
        of_category(s, c) == Seq::<Plugin>::empty(),
    decreases s.len(),
{
    if s.len() > 0 {
        let p = first_categories(s.drop_last());
        if p.contains(c) {
            let j = choose|j: int| 0 <= j < p.len() && p[j] == c;
            assert(first_categories(s).contains(c)) by {
                assert(first_categories(s)[j] == c);
            }
        }
        if s.last().category@ == c {
            assert(first_categories(s).contains(c)) by {
                if p.contains(c) {
                } else {
                    assert(first_categories(s)[p.len() as int] == c);
                }
            }
        }
        lemma_of_category_absent(s.drop_last(), c);
    }
}

} // verus!
