# pubsys_ecr

Copies container images, multi-architecture ones too, to private ECR
repositories across the configured regions.

`src/` is the library. It is written in Verus, and its contracts are proved, but
for those of the trusted calls named below:

- `manifest`: from a command line or a manifest to the images to publish
- `config`: which regions are published to, and with which roles
- `registry`: names of registries, of images in them and of accounts
- `publish`: the publication of one image, step by step
- `retry`: how often and how soon a failed push is tried again
- `run`: a whole run, step by step, and `model`, what it is proved against
- `laws`: what holds of a run as a whole, whatever the services answer
- `error`, `paths`, `text`: errors in words, paths, text operations

`app/` does what the library asks for: it parses arguments, reads files, talks
to AWS and to the image tool, and shows the progress. The program around it
implements the traits `Infra` and `ImageTool`.

Trusted are the calls into `tokio_retry` in `retry` and those into `std::path`
in `paths`; the comment above each of them says what is claimed of it.
