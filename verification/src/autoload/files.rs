//! The text of the generated files.
use vstd::prelude::*;
use vstd::string::*;

use crate::autoload::collect::{directories, Directories};
use crate::links::Pairs;
use crate::sort::pairs;
use crate::text::{join, joined, lemma_views_push, replace, replaced, views};

verus! {

/// `autoload.php` up to the suffix.
pub const AUTOLOAD_HEAD: &'static str = r#"<?php

// autoload.php @generated by Composer

if (PHP_VERSION_ID < 50600) {
    if (!headers_sent()) {
        header('HTTP/1.1 500 Internal Server Error');
    }
    $err = 'Composer 2.3.0 dropped support for autoloading on PHP <5.6 and you are running '.PHP_VERSION.', please upgrade PHP or use Composer 2.2 LTS via "composer self-update --2.2". Aborting.'.PHP_EOL;
    if (!ini_get('display_errors')) {
        if (PHP_SAPI === 'cli' || PHP_SAPI === 'phpdbg') {
            fwrite(STDERR, $err);
        } elseif (!headers_sent()) {
            echo $err;
        }
    }
    throw new RuntimeException($err);
}

require_once __DIR__ . '/composer/autoload_real.php';

return ComposerAutoloaderInit"#;

/// `autoload.php` behind the suffix.
pub const AUTOLOAD_TAIL: &'static str = r#"::getLoader();
"#;

/// The whole of `platform_check.php`.
pub const PLATFORM_CHECK: &'static str = r#"<?php

// platform_check.php @generated by Composer

$issues = array();

if (!(PHP_VERSION_ID >= 80100)) {
    $issues[] = 'Your Composer dependencies require a PHP version ">= 8.1.0". You are running ' . PHP_VERSION . '.';
}

if ($issues) {
    if (!headers_sent()) {
        header('HTTP/1.1 500 Internal Server Error');
    }
    if (!ini_get('display_errors')) {
        if (PHP_SAPI === 'cli' || PHP_SAPI === 'phpdbg') {
            fwrite(STDERR, 'Composer detected issues in your platform:' . PHP_EOL.PHP_EOL . implode(PHP_EOL, $issues) . PHP_EOL.PHP_EOL);
        } elseif (!headers_sent()) {
            echo 'Composer detected issues in your platform:' . PHP_EOL.PHP_EOL . str_replace('You are running '.PHP_VERSION.'.', '', implode(PHP_EOL, $issues)) . PHP_EOL.PHP_EOL;
        }
    }
    throw new \RuntimeException(
        'Composer detected issues in your platform: ' . implode(' ', $issues)
    );
}
"#;

/// Loading files in `autoload_real.php`, up to the suffix.
pub const FILES_HEAD: &'static str = r#"
        $filesToLoad = \Composer\Autoload\ComposerStaticInit"#;

/// Loading files in `autoload_real.php`, behind the suffix.
pub const FILES_TAIL: &'static str = r#"::$files;
        $requireFile = \Closure::bind(static function ($fileIdentifier, $file) {
            if (empty($GLOBALS['__composer_autoload_files'][$fileIdentifier])) {
                $GLOBALS['__composer_autoload_files'][$fileIdentifier] = true;

                require $file;
            }
        }, null, null);
        foreach ($filesToLoad as $fileIdentifier => $file) {
            $requireFile($fileIdentifier, $file);
        }
"#;

/// `autoload_real.php` up to the name of its class.
pub const REAL_HEAD: &'static str = r#"<?php

// autoload_real.php @generated by Composer

class ComposerAutoloaderInit"#;

/// `autoload_real.php` from there to where the loader is registered.
pub const REAL_CLASS: &'static str = r#"
{
    private static $loader;

    public static function loadClassLoader($class)
    {
        if ('Composer\Autoload\ClassLoader' === $class) {
            require __DIR__ . '/ClassLoader.php';
        }
    }

    /**
     * @return \Composer\Autoload\ClassLoader
     */
    public static function getLoader()
    {
        if (null !== self::$loader) {
            return self::$loader;
        }

        require __DIR__ . '/platform_check.php';

        spl_autoload_register(array('ComposerAutoloaderInit"#;

/// `autoload_real.php` from there to where it is taken back.
pub const REAL_UNREGISTER: &'static str = r#"', 'loadClassLoader'), true, true);
        self::$loader = $loader = new \Composer\Autoload\ClassLoader(\dirname(__DIR__));
        spl_autoload_unregister(array('ComposerAutoloaderInit"#;

/// `autoload_real.php` from there to the static data.
pub const REAL_STATIC: &'static str = r#"', 'loadClassLoader'));

        require __DIR__ . '/autoload_static.php';
        call_user_func(\Composer\Autoload\ComposerStaticInit"#;

/// `autoload_real.php` from there to the options.
pub const REAL_REGISTER: &'static str = r#"::getInitializer($loader));

        $loader->register(true);
"#;

/// `autoload_real.php` behind the options.
pub const REAL_TAIL: &'static str = r#"
        return $loader;
    }
}
"#;

/// `autoload_psr4.php` up to the entries.
pub const PSR4_HEAD: &'static str = r#"<?php

// autoload_psr4.php @generated by Composer

$vendorDir = dirname(__DIR__);
$baseDir = dirname($vendorDir);

return array(
"#;

/// `autoload_namespaces.php` up to the entries.
pub const NAMESPACES_HEAD: &'static str = r#"<?php

// autoload_namespaces.php @generated by Composer

$vendorDir = dirname(__DIR__);
$baseDir = dirname($vendorDir);

return array(
"#;

/// `autoload_classmap.php` up to the entries.
pub const CLASSMAP_HEAD: &'static str = r#"<?php

// autoload_classmap.php @generated by Composer

$vendorDir = dirname(__DIR__);
$baseDir = dirname($vendorDir);

return array(
"#;

/// `autoload_files.php` up to the entries.
pub const FILE_LIST_HEAD: &'static str = r#"<?php

// autoload_files.php @generated by Composer

$vendorDir = dirname(__DIR__);
$baseDir = dirname($vendorDir);

return array(
"#;

/// `autoload_static.php` up to the suffix.
pub const STATIC_HEAD: &'static str = r#"<?php

// autoload_static.php @generated by Composer

namespace Composer\Autoload;

class ComposerStaticInit"#;

/// The initializer of `autoload_static.php` up to its statements.
pub const INIT_HEAD: &'static str = r#"    public static function getInitializer(ClassLoader $loader)
    {
        return \Closure::bind(function () use ($loader) {
"#;

/// The initializer of `autoload_static.php` behind its statements.
pub const INIT_TAIL: &'static str = r#"
        }, null, ClassLoader::class);
    }
}
"#;

/// `vendor/autoload.php`.
pub open spec fn autoload_php(suffix: Seq<char>) -> Seq<char> {
    AUTOLOAD_HEAD@ + suffix + AUTOLOAD_TAIL@
}

/// `vendor/autoload.php`.
pub fn generate_autoload_php(suffix: &str) -> (r: String)
    ensures
        r@ == autoload_php(suffix@),
{
    AUTOLOAD_HEAD.to_owned().concat(suffix).concat(AUTOLOAD_TAIL)
}

/// `vendor/composer/platform_check.php`.
pub open spec fn platform_check() -> Seq<char> {
    PLATFORM_CHECK@
}

/// `vendor/composer/platform_check.php`.
pub fn generate_platform_check() -> (r: String)
    ensures
        r@ == platform_check(),
{
    PLATFORM_CHECK.to_owned()
}

/// `vendor/composer/autoload_real.php`.
pub open spec fn autoload_real(
    suffix: Seq<char>,
    apcu: bool,
    authoritative: bool,
    has_files: bool,
) -> Seq<char> {
    let apcu_prefix = if apcu {
        "        $loader->setApcuPrefix('ComposerAutoloader"@ + suffix + "');\n"@
    } else {
        ""@
    };
    let authoritative = if authoritative {
        "        $loader->setClassMapAuthoritative(true);\n"@
    } else {
        ""@
    };
    let files_loader = if has_files {
        FILES_HEAD@ + suffix + FILES_TAIL@
    } else {
        ""@
    };
    REAL_HEAD@ + suffix + REAL_CLASS@ + suffix + REAL_UNREGISTER@ + suffix + REAL_STATIC@ + suffix + REAL_REGISTER@ + apcu_prefix + authoritative + files_loader + REAL_TAIL@
}

/// `vendor/composer/autoload_real.php`.
pub fn generate_autoload_real(
    suffix: &str,
    apcu: bool,
    authoritative: bool,
    has_files: bool,
) -> (r: String)
    ensures
        r@ == autoload_real(suffix@, apcu, authoritative, has_files),
{
    let apcu_prefix = if apcu {
        "        $loader->setApcuPrefix('ComposerAutoloader".to_owned().concat(suffix).concat(
            "');\n",
        )
    } else {
        "".to_owned()
    };
    let authoritative = if authoritative {
        "        $loader->setClassMapAuthoritative(true);\n".to_owned()
    } else {
        "".to_owned()
    };
    let files_loader = if has_files {
        FILES_HEAD.to_owned().concat(suffix).concat(FILES_TAIL)
    } else {
        "".to_owned()
    };
    let mut out = REAL_HEAD.to_owned();
    out.append(suffix);
    out.append(REAL_CLASS);
    out.append(suffix);
    out.append(REAL_UNREGISTER);
    out.append(suffix);
    out.append(REAL_STATIC);
    out.append(suffix);
    out.append(REAL_REGISTER);
    out.append(apcu_prefix.as_str());
    out.append(authoritative.as_str());
    out.append(files_loader.as_str());
    out.append(REAL_TAIL);
    out
}

// ---------------------------------------------------------------------------
// Lists of entries
// ---------------------------------------------------------------------------
/// A name within PHP quotes: every backslash doubled.
pub open spec fn quoted_name(name: Seq<char>) -> Seq<char> {
    replaced(name, "\\"@, "\\\\"@)
}

/// A name within PHP quotes.
pub fn quote_name(name: &str) -> (r: String)
    ensures
        r@ == quoted_name(name@),
{
    proof {
        reveal_strlit("\\");
    }
    replace(name, "\\", "\\\\")
}

/// One namespace and its directories on one line.
pub open spec fn directory_entry(e: (Seq<char>, Seq<Seq<char>>)) -> Seq<char> {
    "    '"@ + quoted_name(e.0) + "' => array("@ + joined(e.1, ", "@) + ")"@
}

/// The namespaces, the last first, one on each line.
pub open spec fn directory_entries(d: Directories) -> Seq<Seq<char>> {
    d.reverse().map_values(|e: (Seq<char>, Seq<Seq<char>>)| directory_entry(e))
}

fn write_directories(v: &Vec<(String, Vec<String>)>) -> (r: Vec<String>)
    ensures
        views(r@) == directory_entries(directories(v@)),
{
    let ghost want = directory_entries(directories(v@));
    let mut out: Vec<String> = Vec::new();
    let mut i: usize = 0;
    while i < v.len()
        invariant
            i <= v.len(),
            want == directory_entries(directories(v@)),
            views(out@) == want.take(i as int),
        decreases v.len() - i,
    {
        let e = &v[v.len() - 1 - i];
        let name = quote_name(e.0.as_str());
        let dirs = join(e.1.as_slice(), ", ");
        let one = "    '".to_owned().concat(name.as_str()).concat("' => array(").concat(
            dirs.as_str(),
        ).concat(")");
        proof {
            lemma_views_push(out@, one);
        }
        out.push(one);
        i += 1;
        assert(views(out@) =~= want.take(i as int));
    }
    assert(views(out@) =~= want);
    out
}

/// `vendor/composer/autoload_psr4.php`.
pub open spec fn autoload_psr4(d: Directories) -> Seq<char> {
    PSR4_HEAD@ + joined(directory_entries(d), ",\n"@) + ",\n);\n"@
}

/// `vendor/composer/autoload_psr4.php`.
pub fn generate_autoload_psr4(v: &Vec<(String, Vec<String>)>) -> (r: String)
    ensures
        r@ == autoload_psr4(directories(v@)),
{
    let entries = write_directories(v);
    PSR4_HEAD.to_owned().concat(join(entries.as_slice(), ",\n").as_str()).concat(",\n);\n")
}

/// The entries, each with a comma and a line end; nothing where there are none.
pub open spec fn entry_block(entries: Seq<Seq<char>>) -> Seq<char> {
    if entries.len() == 0 {
        ""@
    } else {
        joined(entries, ",\n"@) + ",\n"@
    }
}

fn write_block(entries: &Vec<String>) -> (r: String)
    ensures
        r@ == entry_block(views(entries@)),
{
    assert(views(entries@).len() == entries.len());
    if entries.len() == 0 {
        "".to_owned()
    } else {
        join(entries.as_slice(), ",\n").concat(",\n")
    }
}

/// `vendor/composer/autoload_namespaces.php`.
pub open spec fn autoload_namespaces(d: Directories) -> Seq<char> {
    NAMESPACES_HEAD@ + entry_block(directory_entries(d)) + ");\n"@
}

/// `vendor/composer/autoload_namespaces.php`.
pub fn generate_autoload_namespaces(v: &Vec<(String, Vec<String>)>) -> (r: String)
    ensures
        r@ == autoload_namespaces(directories(v@)),
{
    let entries = write_directories(v);
    NAMESPACES_HEAD.to_owned().concat(write_block(&entries).as_str()).concat(");\n")
}

/// The classes, one on each line.
pub open spec fn class_entries(s: Pairs) -> Seq<Seq<char>> {
    s.map_values(
        |e: (Seq<char>, Seq<char>)| "    '"@ + quoted_name(e.0) + "' => "@ + e.1,
    )
}

/// `vendor/composer/autoload_classmap.php`.
pub open spec fn autoload_classmap(s: Pairs) -> Seq<char> {
    CLASSMAP_HEAD@ + entry_block(class_entries(s)) + ");\n"@
}

/// `vendor/composer/autoload_classmap.php`.
pub fn generate_autoload_classmap(v: &Vec<(String, String)>) -> (r: String)
    ensures
        r@ == autoload_classmap(pairs(v@)),
{
    let ghost want = class_entries(pairs(v@));
    let mut out: Vec<String> = Vec::new();
    let mut i: usize = 0;
    while i < v.len()
        invariant
            i <= v.len(),
            want == class_entries(pairs(v@)),
            views(out@) == want.take(i as int),
        decreases v.len() - i,
    {
        let name = quote_name(v[i].0.as_str());
        let one = "    '".to_owned().concat(name.as_str()).concat("' => ").concat(v[i].1.as_str());
        proof {
            lemma_views_push(out@, one);
        }
        out.push(one);
        i += 1;
        assert(views(out@) =~= want.take(i as int));
    }
    assert(views(out@) =~= want);
    CLASSMAP_HEAD.to_owned().concat(write_block(&out).as_str()).concat(");\n")
}

/// The files, one on each line.
pub open spec fn file_entries(s: Pairs) -> Seq<Seq<char>> {
    s.map_values(|e: (Seq<char>, Seq<char>)| "    '"@ + e.0 + "' => "@ + e.1)
}

/// `vendor/composer/autoload_files.php`.
pub open spec fn autoload_files(s: Pairs) -> Seq<char> {
    FILE_LIST_HEAD@ + entry_block(file_entries(s)) + ");\n"@
}

/// `vendor/composer/autoload_files.php`.
pub fn generate_autoload_files(v: &Vec<(String, String)>) -> (r: String)
    ensures
        r@ == autoload_files(pairs(v@)),
{
    let ghost want = file_entries(pairs(v@));
    let mut out: Vec<String> = Vec::new();
    let mut i: usize = 0;
    while i < v.len()
        invariant
            i <= v.len(),
            want == file_entries(pairs(v@)),
            views(out@) == want.take(i as int),
        decreases v.len() - i,
    {
        let one = "    '".to_owned().concat(v[i].0.as_str()).concat("' => ").concat(
            v[i].1.as_str(),
        );
        proof {
            lemma_views_push(out@, one);
        }
        out.push(one);
        i += 1;
        assert(views(out@) =~= want.take(i as int));
    }
    assert(views(out@) =~= want);
    FILE_LIST_HEAD.to_owned().concat(write_block(&out).as_str()).concat(");\n")
}

} // verus!
