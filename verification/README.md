# hbwatch

hbwatch watches folders and transcodes new media files with HandBrakeCLI. A file that appears in a
watched folder is taken up once it has stopped growing, encoded with that folder's preset to a
temporary file, and put in place when the encode has genuinely succeeded; the original is then moved
aside. Failed encodes are retried a few times and then put aside with the reason beside them. The
queue is kept on disk, so that a restart goes on where the daemon stopped.

The rules of all this are a library in Verus, in `src/`: executable Rust whose behaviour is stated in
contracts and proved. `app/` is the program around it, which talks to the file system, the network,
the encoder process and the terminal.

## The library

| module | what it holds |
| --- | --- |
| `path`, `text` | paths as bytes with their components; text building and matching |
| `preset` | the presets of an export, and the choice of one |
| `config`, `resolver` | the configuration, and the questions that resolving it asks of the file system |
| `watcher`, `scan`, `runtime` | which files are taken up, and when a file is complete |
| `claims`, `queue` | the files being taken care of; the job queue, which a restart resumes |
| `encoder`, `mover`, `job_run` | the encoder's command line and verdict; moving files; one job's way |
| `worker` | taking jobs off the queue, retries, and giving up |
| `notify_ntfy`, `progress`, `status`, `statuscmd`, `server`, `dashboard` | what is told, shown and served |
| `service`, `cli` | service units and the command line |

Work that waits on the outside is cut into steps: the library says what is to be done next, the
program does it and hands the outcome back. `Resolver`, `Mover`, `JobRun` and `Worker` are such
machines.

Among what is proved beyond the contracts of single functions:

- no directory is created before every watched folder has been found;
- a configuration whose output or originals directory stands in a watched folder is refused, so that
  an encoded file, its temporary file and a moved original are never right in a watched folder; this
  holds where the output extension has no slash in it. An input that failed for good is not right in
  a watched folder either, unless its `_failed` directory is watched itself;
- a file counts as complete only when its size has stayed the same for the set number of looks;
- a file is in the queue at most once, however long it is looked at between being claimed and being
  enqueued, and scanning again takes nothing up twice;
- the original is not touched before the encoded file is in place, a move between file systems removes
  a file only behind a copy of it that went well, and the name that an original gets was free;
- a job that always fails is tried as often as the settings say, never before its time, and leaves no
  temporary file behind unasked;
- an interrupted job is the first one that the next start takes up.

Calls into the standard library and into `uuid` that the proofs rest on stand behind declarations
whose doc comments say what is claimed of them.

## Tests

`tests/` runs the library on concrete values.
