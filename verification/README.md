# orbix

Installer for an iw1x Call of Duty dedicated server, with its logic proved
correct against its contracts.

- `src/` is the proved library:
  - `text`: white space, trimming, searching and comparing strings;
  - `os_release`: lines and `KEY=VALUE` pairs of `/etc/os-release`, and the
    distribution they describe;
  - `digest`: MD5 sums of downloaded files in lowercase hex;
  - `paths`: path joining and where the installer keeps its files;
  - `fetch`: the files to download and the check-then-download plan;
  - `server`: the server configuration, the start script and commands;
  - `install`: the target directory, the package script and the pak links.
- `app/` is the program around it: prompts, file system, downloads,
  archive extraction and the commands it runs.
- `tests/` runs the library on concrete values.
