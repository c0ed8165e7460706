//! The files of the loader, with the paths they are written to.
use vstd::prelude::*;
use vstd::string::*;

use crate::autoload::collect::{Collected, CollectedView};
use crate::autoload::files::{
    autoload_classmap, autoload_files, autoload_namespaces, autoload_php, autoload_psr4,
    autoload_real, generate_autoload_classmap, generate_autoload_files,
    generate_autoload_namespaces, generate_autoload_php, generate_autoload_psr4,
    generate_autoload_real, generate_platform_check, platform_check,
};
use crate::autoload::static_file::{autoload_static, generate_autoload_static};
use crate::autoload::types::AutoloadConfig;
use crate::links::Pairs;
use crate::paths::{join_path, joined_path};
use crate::sort::{lemma_pairs_push, pairs};

verus! {

/// The files of the loader: paths and texts, in the order in which they are written.
pub open spec fn loader_files(
    config: AutoloadConfig,
    suffix: Seq<char>,
    known: CollectedView,
    classes: Pairs,
) -> Pairs {
    let dir = joined_path(config.vendor_dir@, "composer"@);
    let has_files = known.files.len() > 0;
    let first = Seq::<(Seq<char>, Seq<char>)>::empty().push(
        (joined_path(config.vendor_dir@, "autoload.php"@), autoload_php(suffix)),
    ).push(
        (
            joined_path(dir, "autoload_real.php"@),
            autoload_real(suffix, config.apcu, config.authoritative, has_files),
        ),
    ).push(
        (
            joined_path(dir, "autoload_static.php"@),
            autoload_static(suffix, known.psr4, known.psr0, classes, known.files),
        ),
    ).push((joined_path(dir, "autoload_psr4.php"@), autoload_psr4(known.psr4))).push(
        (joined_path(dir, "autoload_namespaces.php"@), autoload_namespaces(known.psr0)),
    ).push((joined_path(dir, "autoload_classmap.php"@), autoload_classmap(classes)));
    let listed = if has_files {
        first.push((joined_path(dir, "autoload_files.php"@), autoload_files(known.files)))
    } else {
        first
    };
    listed.push((joined_path(dir, "platform_check.php"@), platform_check()))
}

fn add_file(out: &mut Vec<(String, String)>, path: String, content: String)
    ensures
        pairs(final(out)@) == pairs(old(out)@).push((path@, content@)),
{
    proof {
        lemma_pairs_push(out@, (path, content));
    }
    out.push((path, content));
}

/// The files of the loader. `classes` is the class map, `suffix` what the names of
/// the generated classes end in.
pub fn generate(
    config: &AutoloadConfig,
    suffix: &str,
    known: &Collected,
    classes: &Vec<(String, String)>,
) -> (r: Vec<(String, String)>)
    ensures
        pairs(r@) == loader_files(*config, suffix@, known@, pairs(classes@)),
{
    let dir = join_path(config.vendor_dir.as_str(), "composer");
    assert(known@.files.len() == known.files.len());
    let has_files = known.files.len() > 0;
    let mut out: Vec<(String, String)> = Vec::new();
    assert(pairs(out@) =~= Seq::empty());
    add_file(
        &mut out,
        join_path(config.vendor_dir.as_str(), "autoload.php"),
        generate_autoload_php(suffix),
    );
    add_file(
        &mut out,
        join_path(dir.as_str(), "autoload_real.php"),
        generate_autoload_real(suffix, config.apcu, config.authoritative, has_files),
    );
    add_file(
        &mut out,
        join_path(dir.as_str(), "autoload_static.php"),
        generate_autoload_static(suffix, &known.psr4, &known.psr0, classes, &known.files),
    );
    add_file(
        &mut out,
        join_path(dir.as_str(), "autoload_psr4.php"),
        generate_autoload_psr4(&known.psr4),
    );
    add_file(
        &mut out,
        join_path(dir.as_str(), "autoload_namespaces.php"),
        generate_autoload_namespaces(&known.psr0),
    );
    add_file(
        &mut out,
        join_path(dir.as_str(), "autoload_classmap.php"),
        generate_autoload_classmap(classes),
    );
    if has_files {
        add_file(
            &mut out,
            join_path(dir.as_str(), "autoload_files.php"),
            generate_autoload_files(&known.files),
        );
    }
    add_file(&mut out, join_path(dir.as_str(), "platform_check.php"), generate_platform_check());
    out
}

} // verus!
