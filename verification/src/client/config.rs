//! The client's settings after the command line has had its say.

use vstd::prelude::*;
use vstd::string::*;
use crate::chunk::copy_strings;
use crate::error::{ErrorKind, VideoEncodeError};
use crate::settings::{ConcatenatorChoice, Settings};
use crate::text::{decimal, format_decimal, list_contains, push_text, same_text, texts, to_chars};
use crate::words::{fields, rows, split_fields};
use crate::text::from_chars;

verus! {

/// What the client's command line can say against the settings.
#[derive(Debug, Clone, PartialEq, Eq)]
pub struct CliOverrides {
    /// `--nodes`: the nodes' addresses; empty where the option was not given.
    pub nodes: Vec<String>,
    /// `--slots`: for each node, how many requests it takes at a time.
    pub slots: Vec<usize>,
    /// `--encoder-params`: each occurrence as it was written.
    pub encoder_params: Option<Vec<String>>,
    /// `--temp-dir`.
    pub temp_dir: Option<String>,
    /// `--concatenator`.
    pub concatenator: Option<String>,
}

/// The words of all of `arguments`, in order: each argument split at white
/// space.
pub open spec fn split_all(arguments: Seq<Seq<char>>) -> Seq<Seq<char>>
    decreases arguments.len(),
{
    if arguments.len() == 0 {
        Seq::empty()
    } else {
        split_all(arguments.drop_last()) + fields(arguments.last())
    }
}

/// `parameters` with the flag `-y`, which lets the encoder overwrite its
/// output, added at the end unless it is among them.
pub open spec fn with_overwrite(parameters: Seq<Seq<char>>) -> Seq<Seq<char>> {
    if parameters.contains("-y"@) {
        parameters
    } else {
        parameters.push("-y"@)
    }
}

/// The back-end that the command line names: `concat` or `ffmpeg` for the
/// concat back-end, `merge` or `mkvmerge` for the merge back-end.
pub open spec fn concatenator_flag(name: Seq<char>) -> Option<ConcatenatorChoice> {
    if name == "concat"@ || name == "ffmpeg"@ {
        Some(ConcatenatorChoice::Ffmpeg)
    } else if name == "merge"@ || name == "mkvmerge"@ {
        Some(ConcatenatorChoice::Mkvmerge)
    } else {
        None
    }
}

/// What is wrong with the command line's nodes and slots, if anything: nodes
/// without slots, or as many slots as there are not nodes.
pub open spec fn slots_conflict(nodes: nat, slots: nat) -> Option<Seq<char>> {
    if nodes != 0 && slots == 0 {
        Some("If --nodes are provided via CLI, --slots must also be provided."@)
    } else if nodes != 0 && nodes != slots {
        Some(
            "Number of --nodes ("@ + decimal(nodes) + ") must match number of --slots ("@ + decimal(
                slots,
            ) + ") via CLI."@,
        )
    } else {
        None
    }
}

/// The encoder parameters that the command line's arguments stand for.
pub fn encoder_params_from(arguments: &Vec<String>) -> (out: Vec<String>)
    ensures
        texts(out@) == with_overwrite(split_all(texts(arguments@))),
{
    let mut out: Vec<String> = Vec::new();
    let ghost all = texts(arguments@);
    let n = arguments.len();
    let mut i: usize = 0;
    proof {
        assert(texts(out@) =~= Seq::<Seq<char>>::empty());
        assert(all.subrange(0, 0) =~= Seq::<Seq<char>>::empty());
    }
    while i < n
        invariant
            i <= n,
            n == arguments@.len(),
            all == texts(arguments@),
            texts(out@) == split_all(all.subrange(0, i as int)),
        decreases n - i,
    {
        let chars = to_chars(arguments[i].as_str());
        let words = split_fields(chars.as_slice());
        proof {
            assert(all.subrange(0, i + 1).drop_last() =~= all.subrange(0, i as int));
            assert(all.subrange(0, i + 1).last() == arguments@[i as int]@);
        }
        let ghost before = texts(out@);
        let mut k: usize = 0;
        while k < words.len()
            invariant
                k <= words.len(),
                texts(out@) == before + rows(words@).subrange(0, k as int),
            decreases words.len() - k,
        {
            let word = from_chars(words[k].as_slice());
            let ghost sofar = texts(out@);
            out.push(word);
            proof {
                assert(texts(out@) =~= sofar.push(words@[k as int]@));
                assert(rows(words@).subrange(0, k + 1) =~= rows(words@).subrange(0, k as int).push(
                    words@[k as int]@,
                ));
                assert(texts(out@) =~= before + rows(words@).subrange(0, k + 1));
            }
            k += 1;
        }
        proof {
            assert(rows(words@).subrange(0, words@.len() as int) =~= rows(words@));
        }
        i += 1;
    }
    proof {
        assert(all.subrange(0, n as int) =~= all);
    }
    if !list_contains(&out, "-y") {
        push_text(&mut out, "-y");
    }
    out
}

/// Reads the back-end's name as the command line gives it.
pub fn concatenator_from_flag(name: &str) -> (r: Option<ConcatenatorChoice>)
    ensures
        r == concatenator_flag(name@),
{
    if same_text(name, "concat") || same_text(name, "ffmpeg") {
        Some(ConcatenatorChoice::Ffmpeg)
    } else if same_text(name, "merge") || same_text(name, "mkvmerge") {
        Some(ConcatenatorChoice::Mkvmerge)
    } else {
        None
    }
}

/// The settings `loaded` with the command line's overrides applied.
///
/// A command line that names nodes must name as many slots; one that does
/// not is refused with a configuration error, whatever else it says.
/// Otherwise: nodes, where given, replace the configured addresses; encoder
/// parameters, where given, are split into words, get `-y` added unless it is
/// there, and replace the configured ones; the scratch directory and the
/// back-end, where given and known, replace theirs. All else stays.
pub fn load_settings_with_cli_overrides(cli: &CliOverrides, loaded: Settings) -> (r: Result<
    Settings,
    VideoEncodeError,
>)
    ensures
        match slots_conflict(cli.nodes@.len(), cli.slots@.len()) {
            Some(detail) => r is Err && r->Err_0.says(ErrorKind::Config, detail),
            None => {
                &&& r is Ok
                &&& texts(r->Ok_0.client.node_addresses@) == if cli.nodes@.len() > 0 {
                    texts(cli.nodes@)
                } else {
                    texts(loaded.client.node_addresses@)
                }
                &&& texts(r->Ok_0.client.encoder_params@) == match cli.encoder_params {
                    Some(arguments) => with_overwrite(split_all(texts(arguments@))),
                    None => texts(loaded.client.encoder_params@),
                }
                &&& r->Ok_0.processing.temp_dir@ == match cli.temp_dir {
                    Some(dir) => dir@,
                    None => loaded.processing.temp_dir@,
                }
                &&& r->Ok_0.processing.concatenator == match cli.concatenator {
                    Some(name) => match concatenator_flag(name@) {
                        Some(choice) => choice,
                        None => loaded.processing.concatenator,
                    },
                    None => loaded.processing.concatenator,
                }
                &&& r->Ok_0.node == loaded.node
            },
        },
{
    let nodes = cli.nodes.len();
    let slots = cli.slots.len();
    if nodes != 0 && slots == 0 {
        return Err(
            VideoEncodeError::Config(
                String::from_str("If --nodes are provided via CLI, --slots must also be provided."),
            ),
        );
    }
    if nodes != 0 && nodes != slots {
        let mut text = String::from_str("Number of --nodes (");
        text.append(format_decimal(nodes as u64).as_str());
        text.append(") must match number of --slots (");
        text.append(format_decimal(slots as u64).as_str());
        text.append(") via CLI.");
        return Err(VideoEncodeError::Config(text));
    }
    let mut settings = loaded;
    if nodes != 0 {
        settings.client.node_addresses = copy_strings(&cli.nodes);
    }
    match &cli.encoder_params {
        Some(arguments) => {
            settings.client.encoder_params = encoder_params_from(arguments);
        },
        None => {},
    }
    match &cli.temp_dir {
        Some(dir) => {
            settings.processing.temp_dir = dir.clone();
        },
        None => {},
    }
    match &cli.concatenator {
        Some(name) => {
            match concatenator_from_flag(name.as_str()) {
                Some(choice) => {
                    settings.processing.concatenator = choice;
                },
                None => {},
            }
        },
        None => {},
    }
    Ok(settings)
}

} // verus!
