//! Script texts run on the servers during deployments, each the fixed text
//! of its template with the given values put in place.

use vstd::prelude::*;
use crate::text::{contains, decimal, lemma_contains_across, lemma_contains_within, owned};

verus! {

/// Dated copy of the application directory before replacement (skipped when it exists today).
pub open spec fn spec_sibling_backup_block(target_dir: Seq<char>, sibling_dir: Seq<char>) -> Seq<char> {
    "\nif ($actionExit -eq 0) {\n  $targetDir = '"@ + target_dir + "'\n  $siblingDir = '"@ + sibling_dir + "'\n  if (-not (Test-Path -LiteralPath $targetDir)) { Write-Output '目录不存在，跳过日期备份' }\n  elseif (Test-Path -LiteralPath $siblingDir) { Write-Output ('今日备份已存在(' + $siblingDir + ')，跳过') }\n  else {\n    robocopy $targetDir $siblingDir /E /R:2 /W:3 /NP /NFL /NDL | Out-Null\n    if ($LASTEXITCODE -ge 8) { Write-Output '日期备份失败'; $actionExit = 2 }\n    else { Write-Output ('目录已备份 -> ' + $siblingDir) }\n  }\n}\n"@
}

pub fn sibling_backup_block(target_dir: &str, sibling_dir: &str) -> (r: String)
    ensures
        r@ == spec_sibling_backup_block(target_dir@, sibling_dir@),
{
    let mut s = owned("\nif ($actionExit -eq 0) {\n  $targetDir = '");
    s.append(target_dir);
    s.append("'\n  $siblingDir = '");
    s.append(sibling_dir);
    s.append("'\n  if (-not (Test-Path -LiteralPath $targetDir)) { Write-Output '目录不存在，跳过日期备份' }\n  elseif (Test-Path -LiteralPath $siblingDir) { Write-Output ('今日备份已存在(' + $siblingDir + ')，跳过') }\n  else {\n    robocopy $targetDir $siblingDir /E /R:2 /W:3 /NP /NFL /NDL | Out-Null\n    if ($LASTEXITCODE -ge 8) { Write-Output '日期备份失败'; $actionExit = 2 }\n    else { Write-Output ('目录已备份 -> ' + $siblingDir) }\n  }\n}\n");
    assert(s@ =~= spec_sibling_backup_block(target_dir@, sibling_dir@));
    s
}

/// Backs up the live `bin` and mirrors the staged one over it.
pub open spec fn spec_replace_bin_block(sibling_block: Seq<char>, staging_bin: Seq<char>, app_bin: Seq<char>, backup_bin: Seq<char>) -> Seq<char> {
    sibling_block + "\nif ($actionExit -eq 0) {\n  if (-not (Test-Path -LiteralPath '"@ + staging_bin + "')) { Write-Output '暂存目录不存在'; $actionExit = 4 }\n  else {\n    if (Test-Path -LiteralPath '"@ + app_bin + "') {\n      robocopy '"@ + app_bin + "' '"@ + backup_bin + "' /E /R:2 /W:3 /NP /NFL /NDL | Out-Null\n      if ($LASTEXITCODE -ge 8) { Write-Output '备份失败'; $actionExit = 2 }\n      else { Write-Output ('备份完成 -> "@ + backup_bin + "') }\n    } else {\n      Write-Output '目标 bin 不存在，跳过备份（首次部署）'\n    }\n    if ($actionExit -eq 0) {\n      robocopy '"@ + staging_bin + "' '"@ + app_bin + "' /MIR /R:5 /W:2 /NP /NFL /NDL | Out-Null\n      if ($LASTEXITCODE -ge 8) { Write-Output '替换失败'; $actionExit = 3 }\n      else { Write-Output '替换完成' }\n    }\n  }\n}\n"@
}

pub fn replace_bin_block(sibling_block: &str, staging_bin: &str, app_bin: &str, backup_bin: &str) -> (r: String)
    ensures
        r@ == spec_replace_bin_block(sibling_block@, staging_bin@, app_bin@, backup_bin@),
{
    let mut s = owned(sibling_block);
    s.append("\nif ($actionExit -eq 0) {\n  if (-not (Test-Path -LiteralPath '");
    s.append(staging_bin);
    s.append("')) { Write-Output '暂存目录不存在'; $actionExit = 4 }\n  else {\n    if (Test-Path -LiteralPath '");
    s.append(app_bin);
    s.append("') {\n      robocopy '");
    s.append(app_bin);
    s.append("' '");
    s.append(backup_bin);
    s.append("' /E /R:2 /W:3 /NP /NFL /NDL | Out-Null\n      if ($LASTEXITCODE -ge 8) { Write-Output '备份失败'; $actionExit = 2 }\n      else { Write-Output ('备份完成 -> ");
    s.append(backup_bin);
    s.append("') }\n    } else {\n      Write-Output '目标 bin 不存在，跳过备份（首次部署）'\n    }\n    if ($actionExit -eq 0) {\n      robocopy '");
    s.append(staging_bin);
    s.append("' '");
    s.append(app_bin);
    s.append("' /MIR /R:5 /W:2 /NP /NFL /NDL | Out-Null\n      if ($LASTEXITCODE -ge 8) { Write-Output '替换失败'; $actionExit = 3 }\n      else { Write-Output '替换完成' }\n    }\n  }\n}\n");
    assert(s@ =~= spec_replace_bin_block(sibling_block@, staging_bin@, app_bin@, backup_bin@));
    s
}

/// Copies a release directory to another server over its administrative share.
pub open spec fn spec_smb_copy_script(share_root: Seq<char>, password: Seq<char>, staging_release: Seq<char>, remote_share_path: Seq<char>, user: Seq<char>, host_user: Seq<char>) -> Seq<char> {
    "$ErrorActionPreference = 'Continue'\n$shareRoot = '"@ + share_root + "'\n$password = '"@ + password + "'\n$src = '"@ + staging_release + "'\n$dst = '"@ + remote_share_path + "'\n$users = @('"@ + user + "')\nif ('"@ + host_user + "' -ne '"@ + user + "') { $users += '"@ + host_user + "' }\n\nnet use $shareRoot /delete /y 2>$null | Out-Null\n$mapped = $false\nforeach ($userName in $users) {\n  if ([string]::IsNullOrWhiteSpace($userName)) { continue }\n  Write-Output ('尝试映射 ' + $shareRoot + ' ，用户 ' + $userName)\n  net use $shareRoot $password /user:$userName /persistent:no\n  if ($LASTEXITCODE -eq 0) { $mapped = $true; break }\n  Write-Output ('net use 退出码 ' + $LASTEXITCODE)\n}\nif (-not $mapped) {\n  Write-Output ('SMB 映射失败，无法访问 ' + $shareRoot)\n  Write-Output '请检查：1) 主服务器能否访问备机管理共享 2) 账号密码是否正确 3) 备机已开启文件共享且 D$ 等管理共享可用 4) 本机账号访问管理共享需在备机设置 LocalAccountTokenFilterPolicy=1'\n  exit 1\n}\nif (-not (Test-Path -LiteralPath $src)) {\n  Write-Output ('源目录不存在: ' + $src)\n  net use $shareRoot /delete /y 2>$null | Out-Null\n  exit 1\n}\n$dstParent = Split-Path -Parent $dst\nif (-not (Test-Path -LiteralPath $dstParent)) {\n  New-Item -ItemType Directory -Path $dstParent -Force | Out-Null\n}\nrobocopy $src $dst /E /R:2 /W:5 /NP /NFL /NDL\n$copyResult = $LASTEXITCODE\nnet use $shareRoot /delete /y 2>$null | Out-Null\nif ($copyResult -ge 8) {\n  Write-Output ('SMB 复制失败，robocopy 退出码 ' + $copyResult + '（源: ' + $src + ' -> 目标: ' + $dst + '）')\n  if ($copyResult -eq 16) { Write-Output '退出码 16 表示严重错误：路径无效、无权限或共享不可用' }\n  exit 1\n}\nWrite-Output '内网复制完成'\nexit 0"@
}

pub fn smb_copy_script(share_root: &str, password: &str, staging_release: &str, remote_share_path: &str, user: &str, host_user: &str) -> (r: String)
    ensures
        r@ == spec_smb_copy_script(share_root@, password@, staging_release@, remote_share_path@, user@, host_user@),
{
    let mut s = owned("$ErrorActionPreference = 'Continue'\n$shareRoot = '");
    s.append(share_root);
    s.append("'\n$password = '");
    s.append(password);
    s.append("'\n$src = '");
    s.append(staging_release);
    s.append("'\n$dst = '");
    s.append(remote_share_path);
    s.append("'\n$users = @('");
    s.append(user);
    s.append("')\nif ('");
    s.append(host_user);
    s.append("' -ne '");
    s.append(user);
    s.append("') { $users += '");
    s.append(host_user);
    s.append("' }\n\nnet use $shareRoot /delete /y 2>$null | Out-Null\n$mapped = $false\nforeach ($userName in $users) {\n  if ([string]::IsNullOrWhiteSpace($userName)) { continue }\n  Write-Output ('尝试映射 ' + $shareRoot + ' ，用户 ' + $userName)\n  net use $shareRoot $password /user:$userName /persistent:no\n  if ($LASTEXITCODE -eq 0) { $mapped = $true; break }\n  Write-Output ('net use 退出码 ' + $LASTEXITCODE)\n}\nif (-not $mapped) {\n  Write-Output ('SMB 映射失败，无法访问 ' + $shareRoot)\n  Write-Output '请检查：1) 主服务器能否访问备机管理共享 2) 账号密码是否正确 3) 备机已开启文件共享且 D$ 等管理共享可用 4) 本机账号访问管理共享需在备机设置 LocalAccountTokenFilterPolicy=1'\n  exit 1\n}\nif (-not (Test-Path -LiteralPath $src)) {\n  Write-Output ('源目录不存在: ' + $src)\n  net use $shareRoot /delete /y 2>$null | Out-Null\n  exit 1\n}\n$dstParent = Split-Path -Parent $dst\nif (-not (Test-Path -LiteralPath $dstParent)) {\n  New-Item -ItemType Directory -Path $dstParent -Force | Out-Null\n}\nrobocopy $src $dst /E /R:2 /W:5 /NP /NFL /NDL\n$copyResult = $LASTEXITCODE\nnet use $shareRoot /delete /y 2>$null | Out-Null\nif ($copyResult -ge 8) {\n  Write-Output ('SMB 复制失败，robocopy 退出码 ' + $copyResult + '（源: ' + $src + ' -> 目标: ' + $dst + '）')\n  if ($copyResult -eq 16) { Write-Output '退出码 16 表示严重错误：路径无效、无权限或共享不可用' }\n  exit 1\n}\nWrite-Output '内网复制完成'\nexit 0");
    assert(s@ =~= spec_smb_copy_script(share_root@, password@, staging_release@, remote_share_path@, user@, host_user@));
    s
}

/// Expands an uploaded project archive into its staging `bin`.
pub open spec fn spec_expand_archive_script(staging_bin: Seq<char>, remote_zip: Seq<char>) -> Seq<char> {
    "$ErrorActionPreference = 'Stop'\nif (Test-Path '"@ + staging_bin + "') { Remove-Item -LiteralPath '"@ + staging_bin + "' -Recurse -Force }\nExpand-Archive -LiteralPath '"@ + remote_zip + "' -DestinationPath '"@ + staging_bin + "' -Force\nWrite-Output '解压完成 -> "@ + staging_bin + "'"@
}

pub fn expand_archive_script(staging_bin: &str, remote_zip: &str) -> (r: String)
    ensures
        r@ == spec_expand_archive_script(staging_bin@, remote_zip@),
{
    let mut s = owned("$ErrorActionPreference = 'Stop'\nif (Test-Path '");
    s.append(staging_bin);
    s.append("') { Remove-Item -LiteralPath '");
    s.append(staging_bin);
    s.append("' -Recurse -Force }\nExpand-Archive -LiteralPath '");
    s.append(remote_zip);
    s.append("' -DestinationPath '");
    s.append(staging_bin);
    s.append("' -Force\nWrite-Output '解压完成 -> ");
    s.append(staging_bin);
    s.append("'");
    assert(s@ =~= spec_expand_archive_script(staging_bin@, remote_zip@));
    s
}

/// Removes the staging upload directory of a release.
pub open spec fn spec_cleanup_upload_script(upload_dir: Seq<char>) -> Seq<char> {
    "$uploadDir = '"@ + upload_dir + "'\nif (Test-Path $uploadDir) { Remove-Item -LiteralPath $uploadDir -Recurse -Force }"@
}

pub fn cleanup_upload_script(upload_dir: &str) -> (r: String)
    ensures
        r@ == spec_cleanup_upload_script(upload_dir@),
{
    let mut s = owned("$uploadDir = '");
    s.append(upload_dir);
    s.append("'\nif (Test-Path $uploadDir) { Remove-Item -LiteralPath $uploadDir -Recurse -Force }");
    assert(s@ =~= spec_cleanup_upload_script(upload_dir@));
    s
}

/// Mirrors the backed-up `bin` back over the live one.
pub open spec fn spec_restore_bin_block(backup_bin: Seq<char>, app_bin: Seq<char>) -> Seq<char> {
    "if (-not (Test-Path -LiteralPath '"@ + backup_bin + "')) { Write-Output '备份目录不存在: "@ + backup_bin + "'; $actionExit = 4 }\nelse {\n  robocopy '"@ + backup_bin + "' '"@ + app_bin + "' /MIR /R:5 /W:2 /NP /NFL /NDL | Out-Null\n  if ($LASTEXITCODE -ge 8) { Write-Output '恢复失败'; $actionExit = 3 }\n  else { Write-Output '已恢复备份' }\n}\n"@
}

pub fn restore_bin_block(backup_bin: &str, app_bin: &str) -> (r: String)
    ensures
        r@ == spec_restore_bin_block(backup_bin@, app_bin@),
{
    let mut s = owned("if (-not (Test-Path -LiteralPath '");
    s.append(backup_bin);
    s.append("')) { Write-Output '备份目录不存在: ");
    s.append(backup_bin);
    s.append("'; $actionExit = 4 }\nelse {\n  robocopy '");
    s.append(backup_bin);
    s.append("' '");
    s.append(app_bin);
    s.append("' /MIR /R:5 /W:2 /NP /NFL /NDL | Out-Null\n  if ($LASTEXITCODE -ge 8) { Write-Output '恢复失败'; $actionExit = 3 }\n  else { Write-Output '已恢复备份' }\n}\n");
    assert(s@ =~= spec_restore_bin_block(backup_bin@, app_bin@));
    s
}

/// Windows: extracts an archive (through a temporary directory when extraneous files are removed).
pub open spec fn spec_extract_windows_script(zip: Seq<char>, dest: Seq<char>, delete: Seq<char>, copy_switch: Seq<char>) -> Seq<char> {
    "$ErrorActionPreference = 'Continue'\n$zip = '"@ + zip + "'\n$dest = '"@ + dest + "'\n$extract = if ("@ + delete + ") { '"@ + dest + ".extract-tmp' } else { $dest }\nif (-not (Test-Path -LiteralPath $zip)) { Write-Output '压缩包不存在'; exit 4 }\nif (Test-Path -LiteralPath $extract) { if ($extract -ne $dest) { Remove-Item -LiteralPath $extract -Recurse -Force } }\nif (-not (Test-Path -LiteralPath $extract)) { New-Item -ItemType Directory -Path $extract -Force | Out-Null }\nWrite-Output '开始解压压缩包（文件较多时需要一些时间）…'\n$tar = Get-Command tar -ErrorAction SilentlyContinue\nif ($tar) {\n  & tar -xf $zip -C $extract\n  if ($LASTEXITCODE -ne 0) { Write-Output 'tar 解压失败'; exit 6 }\n} else {\n  Expand-Archive -LiteralPath $zip -DestinationPath $extract -Force\n}\nWrite-Output '压缩包已解压'\nif ("@ + delete + ") {\n  Write-Output '正在同步到线上目录…'\n  if (-not (Test-Path -LiteralPath $dest)) { New-Item -ItemType Directory -Path $dest -Force | Out-Null }\n  robocopy $extract $dest "@ + copy_switch + " /R:2 /W:2 /NP /NFL /NDL | Out-Null\n  if ($LASTEXITCODE -ge 8) { Write-Output '同步到目标目录失败'; exit 3 }\n  Remove-Item -LiteralPath $extract -Recurse -Force -ErrorAction SilentlyContinue\n  Write-Output '线上目录已更新'\n}\nRemove-Item -LiteralPath $zip -Force -ErrorAction SilentlyContinue\nWrite-Output '解压覆盖完成'\nexit 0"@
}

pub fn extract_windows_script(zip: &str, dest: &str, delete: &str, copy_switch: &str) -> (r: String)
    ensures
        r@ == spec_extract_windows_script(zip@, dest@, delete@, copy_switch@),
{
    let mut s = owned("$ErrorActionPreference = 'Continue'\n$zip = '");
    s.append(zip);
    s.append("'\n$dest = '");
    s.append(dest);
    s.append("'\n$extract = if (");
    s.append(delete);
    s.append(") { '");
    s.append(dest);
    s.append(".extract-tmp' } else { $dest }\nif (-not (Test-Path -LiteralPath $zip)) { Write-Output '压缩包不存在'; exit 4 }\nif (Test-Path -LiteralPath $extract) { if ($extract -ne $dest) { Remove-Item -LiteralPath $extract -Recurse -Force } }\nif (-not (Test-Path -LiteralPath $extract)) { New-Item -ItemType Directory -Path $extract -Force | Out-Null }\nWrite-Output '开始解压压缩包（文件较多时需要一些时间）…'\n$tar = Get-Command tar -ErrorAction SilentlyContinue\nif ($tar) {\n  & tar -xf $zip -C $extract\n  if ($LASTEXITCODE -ne 0) { Write-Output 'tar 解压失败'; exit 6 }\n} else {\n  Expand-Archive -LiteralPath $zip -DestinationPath $extract -Force\n}\nWrite-Output '压缩包已解压'\nif (");
    s.append(delete);
    s.append(") {\n  Write-Output '正在同步到线上目录…'\n  if (-not (Test-Path -LiteralPath $dest)) { New-Item -ItemType Directory -Path $dest -Force | Out-Null }\n  robocopy $extract $dest ");
    s.append(copy_switch);
    s.append(" /R:2 /W:2 /NP /NFL /NDL | Out-Null\n  if ($LASTEXITCODE -ge 8) { Write-Output '同步到目标目录失败'; exit 3 }\n  Remove-Item -LiteralPath $extract -Recurse -Force -ErrorAction SilentlyContinue\n  Write-Output '线上目录已更新'\n}\nRemove-Item -LiteralPath $zip -Force -ErrorAction SilentlyContinue\nWrite-Output '解压覆盖完成'\nexit 0");
    assert(s@ =~= spec_extract_windows_script(zip@, dest@, delete@, copy_switch@));
    s
}

/// Linux: extracts an archive next to the live directory and mirrors it over, removing extraneous files.
pub open spec fn spec_extract_linux_mirror_script(zip: Seq<char>, dest: Seq<char>) -> Seq<char> {
    "zip='"@ + zip + "'\ndest='"@ + dest + "'\nextract=\"${dest}.extract-tmp\"\nif [ ! -f \"$zip\" ]; then echo '压缩包不存在'; exit 4; fi\necho '开始解压压缩包（文件较多时需要一些时间）…'\nrm -rf \"$extract\"\nmkdir -p \"$extract\"\nif command -v unzip >/dev/null 2>&1; then\n  unzip -o -q \"$zip\" -d \"$extract\" || exit 6\nelif command -v python3 >/dev/null 2>&1; then\n  python3 -c \"import zipfile,sys; zipfile.ZipFile(sys.argv[1]).extractall(sys.argv[2])\" \"$zip\" \"$extract\" || exit 6\nelif command -v python >/dev/null 2>&1; then\n  python -c \"import zipfile,sys; zipfile.ZipFile(sys.argv[1]).extractall(sys.argv[2])\" \"$zip\" \"$extract\" || exit 6\nelse\n  echo '无法解压：请安装 unzip 或 python3'\n  exit 6\nfi\necho '压缩包已解压，正在写入线上目录…'\nif command -v rsync >/dev/null 2>&1; then\n  mkdir -p \"$dest\"\n  rsync -a --delete \"$extract\"/ \"$dest\"/ || exit 3\n  rm -rf \"$extract\"\nelse\n  rm -rf \"$dest\"\n  mv \"$extract\" \"$dest\" || exit 3\nfi\nrm -f \"$zip\"\necho '解压覆盖完成'"@
}

pub fn extract_linux_mirror_script(zip: &str, dest: &str) -> (r: String)
    ensures
        r@ == spec_extract_linux_mirror_script(zip@, dest@),
{
    let mut s = owned("zip='");
    s.append(zip);
    s.append("'\ndest='");
    s.append(dest);
    s.append("'\nextract=\"${dest}.extract-tmp\"\nif [ ! -f \"$zip\" ]; then echo '压缩包不存在'; exit 4; fi\necho '开始解压压缩包（文件较多时需要一些时间）…'\nrm -rf \"$extract\"\nmkdir -p \"$extract\"\nif command -v unzip >/dev/null 2>&1; then\n  unzip -o -q \"$zip\" -d \"$extract\" || exit 6\nelif command -v python3 >/dev/null 2>&1; then\n  python3 -c \"import zipfile,sys; zipfile.ZipFile(sys.argv[1]).extractall(sys.argv[2])\" \"$zip\" \"$extract\" || exit 6\nelif command -v python >/dev/null 2>&1; then\n  python -c \"import zipfile,sys; zipfile.ZipFile(sys.argv[1]).extractall(sys.argv[2])\" \"$zip\" \"$extract\" || exit 6\nelse\n  echo '无法解压：请安装 unzip 或 python3'\n  exit 6\nfi\necho '压缩包已解压，正在写入线上目录…'\nif command -v rsync >/dev/null 2>&1; then\n  mkdir -p \"$dest\"\n  rsync -a --delete \"$extract\"/ \"$dest\"/ || exit 3\n  rm -rf \"$extract\"\nelse\n  rm -rf \"$dest\"\n  mv \"$extract\" \"$dest\" || exit 3\nfi\nrm -f \"$zip\"\necho '解压覆盖完成'");
    assert(s@ =~= spec_extract_linux_mirror_script(zip@, dest@));
    s
}

/// Linux: extracts an archive over the live directory.
pub open spec fn spec_extract_linux_script(zip: Seq<char>, dest: Seq<char>) -> Seq<char> {
    "zip='"@ + zip + "'\ndest='"@ + dest + "'\nif [ ! -f \"$zip\" ]; then echo '压缩包不存在'; exit 4; fi\necho '开始解压压缩包到线上目录（文件较多时需要一些时间）…'\nmkdir -p \"$dest\"\nif command -v unzip >/dev/null 2>&1; then\n  unzip -o -q \"$zip\" -d \"$dest\" || exit 6\nelif command -v python3 >/dev/null 2>&1; then\n  python3 -c \"import zipfile,sys; zipfile.ZipFile(sys.argv[1]).extractall(sys.argv[2])\" \"$zip\" \"$dest\" || exit 6\nelif command -v python >/dev/null 2>&1; then\n  python -c \"import zipfile,sys; zipfile.ZipFile(sys.argv[1]).extractall(sys.argv[2])\" \"$zip\" \"$dest\" || exit 6\nelse\n  echo '无法解压：请安装 unzip 或 python3'\n  exit 6\nfi\nrm -f \"$zip\"\necho '解压覆盖完成'"@
}

pub fn extract_linux_script(zip: &str, dest: &str) -> (r: String)
    ensures
        r@ == spec_extract_linux_script(zip@, dest@),
{
    let mut s = owned("zip='");
    s.append(zip);
    s.append("'\ndest='");
    s.append(dest);
    s.append("'\nif [ ! -f \"$zip\" ]; then echo '压缩包不存在'; exit 4; fi\necho '开始解压压缩包到线上目录（文件较多时需要一些时间）…'\nmkdir -p \"$dest\"\nif command -v unzip >/dev/null 2>&1; then\n  unzip -o -q \"$zip\" -d \"$dest\" || exit 6\nelif command -v python3 >/dev/null 2>&1; then\n  python3 -c \"import zipfile,sys; zipfile.ZipFile(sys.argv[1]).extractall(sys.argv[2])\" \"$zip\" \"$dest\" || exit 6\nelif command -v python >/dev/null 2>&1; then\n  python -c \"import zipfile,sys; zipfile.ZipFile(sys.argv[1]).extractall(sys.argv[2])\" \"$zip\" \"$dest\" || exit 6\nelse\n  echo '无法解压：请安装 unzip 或 python3'\n  exit 6\nfi\nrm -f \"$zip\"\necho '解压覆盖完成'");
    assert(s@ =~= spec_extract_linux_script(zip@, dest@));
    s
}

/// Windows: copies the live directory to its rollback snapshot.
pub open spec fn spec_snapshot_windows_script(live: Seq<char>, backup: Seq<char>) -> Seq<char> {
    "$ErrorActionPreference = 'Continue'\nif (-not (Test-Path -LiteralPath '"@ + live + "')) { Write-Output '线上目录不存在，跳过备份'; exit 0 }\nWrite-Output '开始备份线上目录（文件较多时需要几分钟）…'\nif (Test-Path -LiteralPath '"@ + backup + "') { Remove-Item -LiteralPath '"@ + backup + "' -Recurse -Force }\nrobocopy '"@ + live + "' '"@ + backup + "' /E /R:2 /W:3 /NP /NFL /NDL | Out-Null\nif ($LASTEXITCODE -ge 8) { Write-Output '备份失败'; exit 2 }\nWrite-Output ('备份完成 -> "@ + backup + "')\nexit 0"@
}

pub fn snapshot_windows_script(live: &str, backup: &str) -> (r: String)
    ensures
        r@ == spec_snapshot_windows_script(live@, backup@),
{
    let mut s = owned("$ErrorActionPreference = 'Continue'\nif (-not (Test-Path -LiteralPath '");
    s.append(live);
    s.append("')) { Write-Output '线上目录不存在，跳过备份'; exit 0 }\nWrite-Output '开始备份线上目录（文件较多时需要几分钟）…'\nif (Test-Path -LiteralPath '");
    s.append(backup);
    s.append("') { Remove-Item -LiteralPath '");
    s.append(backup);
    s.append("' -Recurse -Force }\nrobocopy '");
    s.append(live);
    s.append("' '");
    s.append(backup);
    s.append("' /E /R:2 /W:3 /NP /NFL /NDL | Out-Null\nif ($LASTEXITCODE -ge 8) { Write-Output '备份失败'; exit 2 }\nWrite-Output ('备份完成 -> ");
    s.append(backup);
    s.append("')\nexit 0");
    assert(s@ =~= spec_snapshot_windows_script(live@, backup@));
    s
}

/// Linux: copies the live directory to its rollback snapshot.
pub open spec fn spec_snapshot_linux_script(live: Seq<char>, backup: Seq<char>) -> Seq<char> {
    "if [ ! -d '"@ + live + "' ]; then echo '线上目录不存在，跳过备份'; exit 0; fi\necho '开始备份线上目录（文件较多时需要几分钟）…'\nrm -rf '"@ + backup + "'\ncp -a '"@ + live + "' '"@ + backup + "' && echo '备份完成 -> "@ + backup + "'"@
}

pub fn snapshot_linux_script(live: &str, backup: &str) -> (r: String)
    ensures
        r@ == spec_snapshot_linux_script(live@, backup@),
{
    let mut s = owned("if [ ! -d '");
    s.append(live);
    s.append("' ]; then echo '线上目录不存在，跳过备份'; exit 0; fi\necho '开始备份线上目录（文件较多时需要几分钟）…'\nrm -rf '");
    s.append(backup);
    s.append("'\ncp -a '");
    s.append(live);
    s.append("' '");
    s.append(backup);
    s.append("' && echo '备份完成 -> ");
    s.append(backup);
    s.append("'");
    assert(s@ =~= spec_snapshot_linux_script(live@, backup@));
    s
}

/// Windows: restores the live directory from its snapshot.
pub open spec fn spec_restore_windows_script(backup: Seq<char>, live: Seq<char>) -> Seq<char> {
    "$ErrorActionPreference = 'Continue'\nif (-not (Test-Path -LiteralPath '"@ + backup + "')) { Write-Output '备份目录不存在: "@ + backup + "'; exit 4 }\nWrite-Output '开始从备份恢复线上目录…'\nif (-not (Test-Path -LiteralPath '"@ + live + "')) { New-Item -ItemType Directory -Path '"@ + live + "' -Force | Out-Null }\nrobocopy '"@ + backup + "' '"@ + live + "' /MIR /R:5 /W:2 /NP /NFL /NDL | Out-Null\nif ($LASTEXITCODE -ge 8) { Write-Output '恢复失败'; exit 3 }\nWrite-Output '已从备份恢复到 "@ + live + "'\nexit 0"@
}

pub fn restore_windows_script(backup: &str, live: &str) -> (r: String)
    ensures
        r@ == spec_restore_windows_script(backup@, live@),
{
    let mut s = owned("$ErrorActionPreference = 'Continue'\nif (-not (Test-Path -LiteralPath '");
    s.append(backup);
    s.append("')) { Write-Output '备份目录不存在: ");
    s.append(backup);
    s.append("'; exit 4 }\nWrite-Output '开始从备份恢复线上目录…'\nif (-not (Test-Path -LiteralPath '");
    s.append(live);
    s.append("')) { New-Item -ItemType Directory -Path '");
    s.append(live);
    s.append("' -Force | Out-Null }\nrobocopy '");
    s.append(backup);
    s.append("' '");
    s.append(live);
    s.append("' /MIR /R:5 /W:2 /NP /NFL /NDL | Out-Null\nif ($LASTEXITCODE -ge 8) { Write-Output '恢复失败'; exit 3 }\nWrite-Output '已从备份恢复到 ");
    s.append(live);
    s.append("'\nexit 0");
    assert(s@ =~= spec_restore_windows_script(backup@, live@));
    s
}

/// Linux: restores the live directory from its snapshot.
pub open spec fn spec_restore_linux_script(backup: Seq<char>, live: Seq<char>) -> Seq<char> {
    "if [ ! -d '"@ + backup + "' ]; then echo '备份目录不存在: "@ + backup + "'; exit 4; fi\necho '开始从备份恢复线上目录…'\nmkdir -p '"@ + live + "'\nif command -v rsync >/dev/null 2>&1; then\n  rsync -a --delete '"@ + backup + "/' '"@ + live + "/' && echo '已从备份恢复到 "@ + live + "'\nelse\n  rm -rf '"@ + live + "'\n  cp -a '"@ + backup + "' '"@ + live + "' && echo '已从备份恢复到 "@ + live + "'\nfi"@
}

pub fn restore_linux_script(backup: &str, live: &str) -> (r: String)
    ensures
        r@ == spec_restore_linux_script(backup@, live@),
{
    let mut s = owned("if [ ! -d '");
    s.append(backup);
    s.append("' ]; then echo '备份目录不存在: ");
    s.append(backup);
    s.append("'; exit 4; fi\necho '开始从备份恢复线上目录…'\nmkdir -p '");
    s.append(live);
    s.append("'\nif command -v rsync >/dev/null 2>&1; then\n  rsync -a --delete '");
    s.append(backup);
    s.append("/' '");
    s.append(live);
    s.append("/' && echo '已从备份恢复到 ");
    s.append(live);
    s.append("'\nelse\n  rm -rf '");
    s.append(live);
    s.append("'\n  cp -a '");
    s.append(backup);
    s.append("' '");
    s.append(live);
    s.append("' && echo '已从备份恢复到 ");
    s.append(live);
    s.append("'\nfi");
    assert(s@ =~= spec_restore_linux_script(backup@, live@));
    s
}

/// Windows: copies the staging directory over the live one.
pub open spec fn spec_replace_windows_script(staging: Seq<char>, live: Seq<char>, copy_switch: Seq<char>, extra_hint: Seq<char>) -> Seq<char> {
    "$ErrorActionPreference = 'Continue'\nif (-not (Test-Path -LiteralPath '"@ + staging + "')) { Write-Output '中转目录不存在: "@ + staging + "'; exit 4 }\nWrite-Output '开始把中转目录同步到线上…'\nif (-not (Test-Path -LiteralPath '"@ + live + "')) { New-Item -ItemType Directory -Path '"@ + live + "' -Force | Out-Null }\nrobocopy '"@ + staging + "' '"@ + live + "' "@ + copy_switch + " /R:5 /W:2 /NP /NFL /NDL | Out-Null\nif ($LASTEXITCODE -ge 8) { Write-Output '替换失败'; exit 3 }\nWrite-Output '已同步中转内容到 "@ + live + extra_hint + "'\nexit 0"@
}

pub fn replace_windows_script(staging: &str, live: &str, copy_switch: &str, extra_hint: &str) -> (r: String)
    ensures
        r@ == spec_replace_windows_script(staging@, live@, copy_switch@, extra_hint@),
{
    let mut s = owned("$ErrorActionPreference = 'Continue'\nif (-not (Test-Path -LiteralPath '");
    s.append(staging);
    s.append("')) { Write-Output '中转目录不存在: ");
    s.append(staging);
    s.append("'; exit 4 }\nWrite-Output '开始把中转目录同步到线上…'\nif (-not (Test-Path -LiteralPath '");
    s.append(live);
    s.append("')) { New-Item -ItemType Directory -Path '");
    s.append(live);
    s.append("' -Force | Out-Null }\nrobocopy '");
    s.append(staging);
    s.append("' '");
    s.append(live);
    s.append("' ");
    s.append(copy_switch);
    s.append(" /R:5 /W:2 /NP /NFL /NDL | Out-Null\nif ($LASTEXITCODE -ge 8) { Write-Output '替换失败'; exit 3 }\nWrite-Output '已同步中转内容到 ");
    s.append(live);
    s.append(extra_hint);
    s.append("'\nexit 0");
    assert(s@ =~= spec_replace_windows_script(staging@, live@, copy_switch@, extra_hint@));
    s
}

/// Linux: mirrors the staging directory over the live one (needs rsync).
pub open spec fn spec_replace_linux_mirror_script(staging: Seq<char>, live: Seq<char>) -> Seq<char> {
    "if [ ! -d '"@ + staging + "' ]; then echo '中转目录不存在: "@ + staging + "'; exit 4; fi\necho '开始把中转目录同步到线上…'\nif ! command -v rsync >/dev/null 2>&1; then echo '服务器未安装 rsync，无法执行“删除多余文件”的替换，请安装 rsync 或关闭该选项'; exit 5; fi\nmkdir -p '"@ + live + "'\nrsync -a --delete '"@ + staging + "/' '"@ + live + "/' && echo '已同步中转内容到 "@ + live + "（含删除多余文件）'"@
}

pub fn replace_linux_mirror_script(staging: &str, live: &str) -> (r: String)
    ensures
        r@ == spec_replace_linux_mirror_script(staging@, live@),
{
    let mut s = owned("if [ ! -d '");
    s.append(staging);
    s.append("' ]; then echo '中转目录不存在: ");
    s.append(staging);
    s.append("'; exit 4; fi\necho '开始把中转目录同步到线上…'\nif ! command -v rsync >/dev/null 2>&1; then echo '服务器未安装 rsync，无法执行“删除多余文件”的替换，请安装 rsync 或关闭该选项'; exit 5; fi\nmkdir -p '");
    s.append(live);
    s.append("'\nrsync -a --delete '");
    s.append(staging);
    s.append("/' '");
    s.append(live);
    s.append("/' && echo '已同步中转内容到 ");
    s.append(live);
    s.append("（含删除多余文件）'");
    assert(s@ =~= spec_replace_linux_mirror_script(staging@, live@));
    s
}

/// Linux: copies the staging directory over the live one.
pub open spec fn spec_replace_linux_script(staging: Seq<char>, live: Seq<char>) -> Seq<char> {
    "if [ ! -d '"@ + staging + "' ]; then echo '中转目录不存在: "@ + staging + "'; exit 4; fi\necho '开始把中转目录复制到线上…'\nmkdir -p '"@ + live + "'\ncp -af '"@ + staging + "/.' '"@ + live + "/' && echo '已复制中转内容到 "@ + live + "'"@
}

pub fn replace_linux_script(staging: &str, live: &str) -> (r: String)
    ensures
        r@ == spec_replace_linux_script(staging@, live@),
{
    let mut s = owned("if [ ! -d '");
    s.append(staging);
    s.append("' ]; then echo '中转目录不存在: ");
    s.append(staging);
    s.append("'; exit 4; fi\necho '开始把中转目录复制到线上…'\nmkdir -p '");
    s.append(live);
    s.append("'\ncp -af '");
    s.append(staging);
    s.append("/.' '");
    s.append(live);
    s.append("/' && echo '已复制中转内容到 ");
    s.append(live);
    s.append("'");
    assert(s@ =~= spec_replace_linux_script(staging@, live@));
    s
}

/// Requests the health URL; any status below 500 counts as alive.
pub open spec fn spec_health_check_script(url: Seq<char>) -> Seq<char> {
    "try { Invoke-WebRequest -Uri '"@ + url + "' -UseBasicParsing -TimeoutSec 10 | Out-Null; exit 0 } catch { $statusCode = 0; try { $statusCode = [int]$_.Exception.Response.StatusCode } catch {}; if ($statusCode -gt 0 -and $statusCode -lt 500) { exit 0 } else { exit 1 } }"@
}

pub fn health_check_script(url: &str) -> (r: String)
    ensures
        r@ == spec_health_check_script(url@),
{
    let mut s = owned("try { Invoke-WebRequest -Uri '");
    s.append(url);
    s.append("' -UseBasicParsing -TimeoutSec 10 | Out-Null; exit 0 } catch { $statusCode = 0; try { $statusCode = [int]$_.Exception.Response.StatusCode } catch {}; if ($statusCode -gt 0 -and $statusCode -lt 500) { exit 0 } else { exit 1 } }");
    assert(s@ =~= spec_health_check_script(url@));
    s
}

// ---------------------------------------------------------------------
// Which way each copy goes
// ---------------------------------------------------------------------

/// Rolling back restores the backup: the block mirrors with robocopy from
/// the backed-up `bin` (source) to the application's `bin` (destination),
/// so the live directory gets the backup and the backup is left as it was.
pub proof fn lemma_restore_copies_backup_over_bin(backup_bin: Seq<char>, app_bin: Seq<char>)
    ensures
        contains(spec_restore_bin_block(backup_bin, app_bin), "robocopy '"@ + backup_bin + "' '"@ + app_bin + "' /MIR"@),
{
    reveal_strlit("'; $actionExit = 4 }\nelse {\n  robocopy '");
    reveal_strlit("robocopy '");
    reveal_strlit("' /MIR /R:5 /W:2 /NP /NFL /NDL | Out-Null\n  if ($LASTEXITCODE -ge 8) { Write-Output '恢复失败'; $actionExit = 3 }\n  else { Write-Output '已恢复备份' }\n}\n");
    reveal_strlit("' /MIR");
    let l = "'; $actionExit = 4 }\nelse {\n  robocopy '"@;
    let r = "' /MIR /R:5 /W:2 /NP /NFL /NDL | Out-Null\n  if ($LASTEXITCODE -ge 8) { Write-Output '恢复失败'; $actionExit = 3 }\n  else { Write-Output '已恢复备份' }\n}\n"@;
    assert(l.skip(l.len() - "robocopy '"@.len()) =~= "robocopy '"@);
    assert(r.take("' /MIR"@.len() as int) =~= "' /MIR"@);
    lemma_contains_across("if (-not (Test-Path -LiteralPath '"@ + backup_bin + "')) { Write-Output '备份目录不存在: "@ + backup_bin, l, backup_bin, "' '"@, app_bin, r, Seq::<char>::empty(), "robocopy '"@, "' /MIR"@);
    assert(spec_restore_bin_block(backup_bin, app_bin) =~= "if (-not (Test-Path -LiteralPath '"@ + backup_bin + "')) { Write-Output '备份目录不存在: "@ + backup_bin + l + backup_bin + "' '"@ + app_bin + r + Seq::<char>::empty());
}

/// Before a replacement the live `bin` is copied into the backup directory
/// (source the application's `bin`, destination the backup).
pub proof fn lemma_replace_backs_up_bin_first(sibling_block: Seq<char>, staging_bin: Seq<char>, app_bin: Seq<char>, backup_bin: Seq<char>)
    ensures
        contains(spec_replace_bin_block(sibling_block, staging_bin, app_bin, backup_bin), "robocopy '"@ + app_bin + "' '"@ + backup_bin + "' /E"@),
{
    reveal_strlit("') {\n      robocopy '");
    reveal_strlit("robocopy '");
    reveal_strlit("' /E /R:2 /W:3 /NP /NFL /NDL | Out-Null\n      if ($LASTEXITCODE -ge 8) { Write-Output '备份失败'; $actionExit = 2 }\n      else { Write-Output ('备份完成 -> ");
    reveal_strlit("' /E");
    let l = "') {\n      robocopy '"@;
    let r = "' /E /R:2 /W:3 /NP /NFL /NDL | Out-Null\n      if ($LASTEXITCODE -ge 8) { Write-Output '备份失败'; $actionExit = 2 }\n      else { Write-Output ('备份完成 -> "@;
    assert(l.skip(l.len() - "robocopy '"@.len()) =~= "robocopy '"@);
    assert(r.take("' /E"@.len() as int) =~= "' /E"@);
    lemma_contains_across(sibling_block + "\nif ($actionExit -eq 0) {\n  if (-not (Test-Path -LiteralPath '"@ + staging_bin + "')) { Write-Output '暂存目录不存在'; $actionExit = 4 }\n  else {\n    if (Test-Path -LiteralPath '"@ + app_bin, l, app_bin, "' '"@, backup_bin, r, (backup_bin + "') }\n    } else {\n      Write-Output '目标 bin 不存在，跳过备份（首次部署）'\n    }\n    if ($actionExit -eq 0) {\n      robocopy '"@ + staging_bin + "' '"@ + app_bin + "' /MIR /R:5 /W:2 /NP /NFL /NDL | Out-Null\n      if ($LASTEXITCODE -ge 8) { Write-Output '替换失败'; $actionExit = 3 }\n      else { Write-Output '替换完成' }\n    }\n  }\n}\n"@), "robocopy '"@, "' /E"@);
    assert(spec_replace_bin_block(sibling_block, staging_bin, app_bin, backup_bin) =~= sibling_block + "\nif ($actionExit -eq 0) {\n  if (-not (Test-Path -LiteralPath '"@ + staging_bin + "')) { Write-Output '暂存目录不存在'; $actionExit = 4 }\n  else {\n    if (Test-Path -LiteralPath '"@ + app_bin + l + app_bin + "' '"@ + backup_bin + r + (backup_bin + "') }\n    } else {\n      Write-Output '目标 bin 不存在，跳过备份（首次部署）'\n    }\n    if ($actionExit -eq 0) {\n      robocopy '"@ + staging_bin + "' '"@ + app_bin + "' /MIR /R:5 /W:2 /NP /NFL /NDL | Out-Null\n      if ($LASTEXITCODE -ge 8) { Write-Output '替换失败'; $actionExit = 3 }\n      else { Write-Output '替换完成' }\n    }\n  }\n}\n"@));
}

/// The replacement mirrors the staged `bin` (source) over the application's
/// `bin` (destination).
pub proof fn lemma_replace_copies_staging_over_bin(sibling_block: Seq<char>, staging_bin: Seq<char>, app_bin: Seq<char>, backup_bin: Seq<char>)
    ensures
        contains(spec_replace_bin_block(sibling_block, staging_bin, app_bin, backup_bin), "robocopy '"@ + staging_bin + "' '"@ + app_bin + "' /MIR"@),
{
    reveal_strlit("') }\n    } else {\n      Write-Output '目标 bin 不存在，跳过备份（首次部署）'\n    }\n    if ($actionExit -eq 0) {\n      robocopy '");
    reveal_strlit("robocopy '");
    reveal_strlit("' /MIR /R:5 /W:2 /NP /NFL /NDL | Out-Null\n      if ($LASTEXITCODE -ge 8) { Write-Output '替换失败'; $actionExit = 3 }\n      else { Write-Output '替换完成' }\n    }\n  }\n}\n");
    reveal_strlit("' /MIR");
    let l = "') }\n    } else {\n      Write-Output '目标 bin 不存在，跳过备份（首次部署）'\n    }\n    if ($actionExit -eq 0) {\n      robocopy '"@;
    let r = "' /MIR /R:5 /W:2 /NP /NFL /NDL | Out-Null\n      if ($LASTEXITCODE -ge 8) { Write-Output '替换失败'; $actionExit = 3 }\n      else { Write-Output '替换完成' }\n    }\n  }\n}\n"@;
    assert(l.skip(l.len() - "robocopy '"@.len()) =~= "robocopy '"@);
    assert(r.take("' /MIR"@.len() as int) =~= "' /MIR"@);
    lemma_contains_across(sibling_block + "\nif ($actionExit -eq 0) {\n  if (-not (Test-Path -LiteralPath '"@ + staging_bin + "')) { Write-Output '暂存目录不存在'; $actionExit = 4 }\n  else {\n    if (Test-Path -LiteralPath '"@ + app_bin + "') {\n      robocopy '"@ + app_bin + "' '"@ + backup_bin + "' /E /R:2 /W:3 /NP /NFL /NDL | Out-Null\n      if ($LASTEXITCODE -ge 8) { Write-Output '备份失败'; $actionExit = 2 }\n      else { Write-Output ('备份完成 -> "@ + backup_bin, l, staging_bin, "' '"@, app_bin, r, Seq::<char>::empty(), "robocopy '"@, "' /MIR"@);
    assert(spec_replace_bin_block(sibling_block, staging_bin, app_bin, backup_bin) =~= sibling_block + "\nif ($actionExit -eq 0) {\n  if (-not (Test-Path -LiteralPath '"@ + staging_bin + "')) { Write-Output '暂存目录不存在'; $actionExit = 4 }\n  else {\n    if (Test-Path -LiteralPath '"@ + app_bin + "') {\n      robocopy '"@ + app_bin + "' '"@ + backup_bin + "' /E /R:2 /W:3 /NP /NFL /NDL | Out-Null\n      if ($LASTEXITCODE -ge 8) { Write-Output '备份失败'; $actionExit = 2 }\n      else { Write-Output ('备份完成 -> "@ + backup_bin + l + staging_bin + "' '"@ + app_bin + r + Seq::<char>::empty());
}

/// A Linux front-end rollback syncs the snapshot (source) over the live
/// directory (destination) when rsync is there.
pub proof fn lemma_linux_restore_syncs_backup_over_live(backup: Seq<char>, live: Seq<char>)
    ensures
        contains(spec_restore_linux_script(backup, live), "rsync -a --delete '"@ + backup + "/' '"@ + live + "/'"@),
{
    reveal_strlit("'\nif command -v rsync >/dev/null 2>&1; then\n  rsync -a --delete '");
    reveal_strlit("rsync -a --delete '");
    reveal_strlit("/' && echo '已从备份恢复到 ");
    reveal_strlit("/'");
    let l = "'\nif command -v rsync >/dev/null 2>&1; then\n  rsync -a --delete '"@;
    let r = "/' && echo '已从备份恢复到 "@;
    assert(l.skip(l.len() - "rsync -a --delete '"@.len()) =~= "rsync -a --delete '"@);
    assert(r.take("/'"@.len() as int) =~= "/'"@);
    lemma_contains_across("if [ ! -d '"@ + backup + "' ]; then echo '备份目录不存在: "@ + backup + "'; exit 4; fi\necho '开始从备份恢复线上目录…'\nmkdir -p '"@ + live, l, backup, "/' '"@, live, r, (live + "'\nelse\n  rm -rf '"@ + live + "'\n  cp -a '"@ + backup + "' '"@ + live + "' && echo '已从备份恢复到 "@ + live + "'\nfi"@), "rsync -a --delete '"@, "/'"@);
    assert(spec_restore_linux_script(backup, live) =~= "if [ ! -d '"@ + backup + "' ]; then echo '备份目录不存在: "@ + backup + "'; exit 4; fi\necho '开始从备份恢复线上目录…'\nmkdir -p '"@ + live + l + backup + "/' '"@ + live + r + (live + "'\nelse\n  rm -rf '"@ + live + "'\n  cp -a '"@ + backup + "' '"@ + live + "' && echo '已从备份恢复到 "@ + live + "'\nfi"@));
}

/// Without rsync the Linux rollback copies the snapshot (source) to the
/// live directory (destination).
pub proof fn lemma_linux_restore_copies_backup_over_live(backup: Seq<char>, live: Seq<char>)
    ensures
        contains(spec_restore_linux_script(backup, live), "cp -a '"@ + backup + "' '"@ + live + "'"@),
{
    reveal_strlit("'\n  cp -a '");
    reveal_strlit("cp -a '");
    reveal_strlit("' && echo '已从备份恢复到 ");
    reveal_strlit("'");
    let l = "'\n  cp -a '"@;
    let r = "' && echo '已从备份恢复到 "@;
    assert(l.skip(l.len() - "cp -a '"@.len()) =~= "cp -a '"@);
    assert(r.take("'"@.len() as int) =~= "'"@);
    lemma_contains_across("if [ ! -d '"@ + backup + "' ]; then echo '备份目录不存在: "@ + backup + "'; exit 4; fi\necho '开始从备份恢复线上目录…'\nmkdir -p '"@ + live + "'\nif command -v rsync >/dev/null 2>&1; then\n  rsync -a --delete '"@ + backup + "/' '"@ + live + "/' && echo '已从备份恢复到 "@ + live + "'\nelse\n  rm -rf '"@ + live, l, backup, "' '"@, live, r, (live + "'\nfi"@), "cp -a '"@, "'"@);
    assert(spec_restore_linux_script(backup, live) =~= "if [ ! -d '"@ + backup + "' ]; then echo '备份目录不存在: "@ + backup + "'; exit 4; fi\necho '开始从备份恢复线上目录…'\nmkdir -p '"@ + live + "'\nif command -v rsync >/dev/null 2>&1; then\n  rsync -a --delete '"@ + backup + "/' '"@ + live + "/' && echo '已从备份恢复到 "@ + live + "'\nelse\n  rm -rf '"@ + live + l + backup + "' '"@ + live + r + (live + "'\nfi"@));
}

/// A Windows front-end rollback mirrors the snapshot (source) over the
/// live directory (destination).
pub proof fn lemma_windows_restore_copies_backup_over_live(backup: Seq<char>, live: Seq<char>)
    ensures
        contains(spec_restore_windows_script(backup, live), "robocopy '"@ + backup + "' '"@ + live + "' /MIR"@),
{
    reveal_strlit("' -Force | Out-Null }\nrobocopy '");
    reveal_strlit("robocopy '");
    reveal_strlit("' /MIR /R:5 /W:2 /NP /NFL /NDL | Out-Null\nif ($LASTEXITCODE -ge 8) { Write-Output '恢复失败'; exit 3 }\nWrite-Output '已从备份恢复到 ");
    reveal_strlit("' /MIR");
    let l = "' -Force | Out-Null }\nrobocopy '"@;
    let r = "' /MIR /R:5 /W:2 /NP /NFL /NDL | Out-Null\nif ($LASTEXITCODE -ge 8) { Write-Output '恢复失败'; exit 3 }\nWrite-Output '已从备份恢复到 "@;
    assert(l.skip(l.len() - "robocopy '"@.len()) =~= "robocopy '"@);
    assert(r.take("' /MIR"@.len() as int) =~= "' /MIR"@);
    lemma_contains_across("$ErrorActionPreference = 'Continue'\nif (-not (Test-Path -LiteralPath '"@ + backup + "')) { Write-Output '备份目录不存在: "@ + backup + "'; exit 4 }\nWrite-Output '开始从备份恢复线上目录…'\nif (-not (Test-Path -LiteralPath '"@ + live + "')) { New-Item -ItemType Directory -Path '"@ + live, l, backup, "' '"@, live, r, (live + "'\nexit 0"@), "robocopy '"@, "' /MIR"@);
    assert(spec_restore_windows_script(backup, live) =~= "$ErrorActionPreference = 'Continue'\nif (-not (Test-Path -LiteralPath '"@ + backup + "')) { Write-Output '备份目录不存在: "@ + backup + "'; exit 4 }\nWrite-Output '开始从备份恢复线上目录…'\nif (-not (Test-Path -LiteralPath '"@ + live + "')) { New-Item -ItemType Directory -Path '"@ + live + l + backup + "' '"@ + live + r + (live + "'\nexit 0"@));
}

/// A Linux replacement that deletes extra files syncs the staging
/// directory (source) over the live directory (destination).
pub proof fn lemma_linux_mirror_replace_syncs_staging_over_live(staging: Seq<char>, live: Seq<char>)
    ensures
        contains(spec_replace_linux_mirror_script(staging, live), "rsync -a --delete '"@ + staging + "/' '"@ + live + "/'"@),
{
    reveal_strlit("'\nrsync -a --delete '");
    reveal_strlit("rsync -a --delete '");
    reveal_strlit("/' && echo '已同步中转内容到 ");
    reveal_strlit("/'");
    let l = "'\nrsync -a --delete '"@;
    let r = "/' && echo '已同步中转内容到 "@;
    assert(l.skip(l.len() - "rsync -a --delete '"@.len()) =~= "rsync -a --delete '"@);
    assert(r.take("/'"@.len() as int) =~= "/'"@);
    lemma_contains_across("if [ ! -d '"@ + staging + "' ]; then echo '中转目录不存在: "@ + staging + "'; exit 4; fi\necho '开始把中转目录同步到线上…'\nif ! command -v rsync >/dev/null 2>&1; then echo '服务器未安装 rsync，无法执行“删除多余文件”的替换，请安装 rsync 或关闭该选项'; exit 5; fi\nmkdir -p '"@ + live, l, staging, "/' '"@, live, r, (live + "（含删除多余文件）'"@), "rsync -a --delete '"@, "/'"@);
    assert(spec_replace_linux_mirror_script(staging, live) =~= "if [ ! -d '"@ + staging + "' ]; then echo '中转目录不存在: "@ + staging + "'; exit 4; fi\necho '开始把中转目录同步到线上…'\nif ! command -v rsync >/dev/null 2>&1; then echo '服务器未安装 rsync，无法执行“删除多余文件”的替换，请安装 rsync 或关闭该选项'; exit 5; fi\nmkdir -p '"@ + live + l + staging + "/' '"@ + live + r + (live + "（含删除多余文件）'"@));
}

/// A Linux replacement copies the contents of the staging directory
/// (source) into the live directory (destination).
pub proof fn lemma_linux_replace_copies_staging_over_live(staging: Seq<char>, live: Seq<char>)
    ensures
        contains(spec_replace_linux_script(staging, live), "cp -af '"@ + staging + "/.' '"@ + live + "/'"@),
{
    reveal_strlit("'\ncp -af '");
    reveal_strlit("cp -af '");
    reveal_strlit("/' && echo '已复制中转内容到 ");
    reveal_strlit("/'");
    let l = "'\ncp -af '"@;
    let r = "/' && echo '已复制中转内容到 "@;
    assert(l.skip(l.len() - "cp -af '"@.len()) =~= "cp -af '"@);
    assert(r.take("/'"@.len() as int) =~= "/'"@);
    lemma_contains_across("if [ ! -d '"@ + staging + "' ]; then echo '中转目录不存在: "@ + staging + "'; exit 4; fi\necho '开始把中转目录复制到线上…'\nmkdir -p '"@ + live, l, staging, "/.' '"@, live, r, (live + "'"@), "cp -af '"@, "/'"@);
    assert(spec_replace_linux_script(staging, live) =~= "if [ ! -d '"@ + staging + "' ]; then echo '中转目录不存在: "@ + staging + "'; exit 4; fi\necho '开始把中转目录复制到线上…'\nmkdir -p '"@ + live + l + staging + "/.' '"@ + live + r + (live + "'"@));
}

/// A Windows replacement copies the staging directory (source) over the
/// live directory (destination).
pub proof fn lemma_windows_replace_copies_staging_over_live(staging: Seq<char>, live: Seq<char>, copy_switch: Seq<char>, extra_hint: Seq<char>)
    ensures
        contains(spec_replace_windows_script(staging, live, copy_switch, extra_hint), "robocopy '"@ + staging + "' '"@ + live + "' "@),
{
    reveal_strlit("' -Force | Out-Null }\nrobocopy '");
    reveal_strlit("robocopy '");
    reveal_strlit("' ");
    reveal_strlit("' ");
    let l = "' -Force | Out-Null }\nrobocopy '"@;
    let r = "' "@;
    assert(l.skip(l.len() - "robocopy '"@.len()) =~= "robocopy '"@);
    assert(r.take("' "@.len() as int) =~= "' "@);
    lemma_contains_across("$ErrorActionPreference = 'Continue'\nif (-not (Test-Path -LiteralPath '"@ + staging + "')) { Write-Output '中转目录不存在: "@ + staging + "'; exit 4 }\nWrite-Output '开始把中转目录同步到线上…'\nif (-not (Test-Path -LiteralPath '"@ + live + "')) { New-Item -ItemType Directory -Path '"@ + live, l, staging, "' '"@, live, r, (copy_switch + " /R:5 /W:2 /NP /NFL /NDL | Out-Null\nif ($LASTEXITCODE -ge 8) { Write-Output '替换失败'; exit 3 }\nWrite-Output '已同步中转内容到 "@ + live + extra_hint + "'\nexit 0"@), "robocopy '"@, "' "@);
    assert(spec_replace_windows_script(staging, live, copy_switch, extra_hint) =~= "$ErrorActionPreference = 'Continue'\nif (-not (Test-Path -LiteralPath '"@ + staging + "')) { Write-Output '中转目录不存在: "@ + staging + "'; exit 4 }\nWrite-Output '开始把中转目录同步到线上…'\nif (-not (Test-Path -LiteralPath '"@ + live + "')) { New-Item -ItemType Directory -Path '"@ + live + l + staging + "' '"@ + live + r + (copy_switch + " /R:5 /W:2 /NP /NFL /NDL | Out-Null\nif ($LASTEXITCODE -ge 8) { Write-Output '替换失败'; exit 3 }\nWrite-Output '已同步中转内容到 "@ + live + extra_hint + "'\nexit 0"@));
}

/// A Linux snapshot copies the live directory (source) to the snapshot
/// directory (destination).
pub proof fn lemma_linux_snapshot_copies_live_to_backup(live: Seq<char>, backup: Seq<char>)
    ensures
        contains(spec_snapshot_linux_script(live, backup), "cp -a '"@ + live + "' '"@ + backup + "'"@),
{
    reveal_strlit("'\ncp -a '");
    reveal_strlit("cp -a '");
    reveal_strlit("' && echo '备份完成 -> ");
    reveal_strlit("'");
    let l = "'\ncp -a '"@;
    let r = "' && echo '备份完成 -> "@;
    assert(l.skip(l.len() - "cp -a '"@.len()) =~= "cp -a '"@);
    assert(r.take("'"@.len() as int) =~= "'"@);
    lemma_contains_across("if [ ! -d '"@ + live + "' ]; then echo '线上目录不存在，跳过备份'; exit 0; fi\necho '开始备份线上目录（文件较多时需要几分钟）…'\nrm -rf '"@ + backup, l, live, "' '"@, backup, r, (backup + "'"@), "cp -a '"@, "'"@);
    assert(spec_snapshot_linux_script(live, backup) =~= "if [ ! -d '"@ + live + "' ]; then echo '线上目录不存在，跳过备份'; exit 0; fi\necho '开始备份线上目录（文件较多时需要几分钟）…'\nrm -rf '"@ + backup + l + live + "' '"@ + backup + r + (backup + "'"@));
}

/// A Windows snapshot copies the live directory (source) to the snapshot
/// directory (destination).
pub proof fn lemma_windows_snapshot_copies_live_to_backup(live: Seq<char>, backup: Seq<char>)
    ensures
        contains(spec_snapshot_windows_script(live, backup), "robocopy '"@ + live + "' '"@ + backup + "' /E"@),
{
    reveal_strlit("' -Recurse -Force }\nrobocopy '");
    reveal_strlit("robocopy '");
    reveal_strlit("' /E /R:2 /W:3 /NP /NFL /NDL | Out-Null\nif ($LASTEXITCODE -ge 8) { Write-Output '备份失败'; exit 2 }\nWrite-Output ('备份完成 -> ");
    reveal_strlit("' /E");
    let l = "' -Recurse -Force }\nrobocopy '"@;
    let r = "' /E /R:2 /W:3 /NP /NFL /NDL | Out-Null\nif ($LASTEXITCODE -ge 8) { Write-Output '备份失败'; exit 2 }\nWrite-Output ('备份完成 -> "@;
    assert(l.skip(l.len() - "robocopy '"@.len()) =~= "robocopy '"@);
    assert(r.take("' /E"@.len() as int) =~= "' /E"@);
    lemma_contains_across("$ErrorActionPreference = 'Continue'\nif (-not (Test-Path -LiteralPath '"@ + live + "')) { Write-Output '线上目录不存在，跳过备份'; exit 0 }\nWrite-Output '开始备份线上目录（文件较多时需要几分钟）…'\nif (Test-Path -LiteralPath '"@ + backup + "') { Remove-Item -LiteralPath '"@ + backup, l, live, "' '"@, backup, r, (backup + "')\nexit 0"@), "robocopy '"@, "' /E"@);
    assert(spec_snapshot_windows_script(live, backup) =~= "$ErrorActionPreference = 'Continue'\nif (-not (Test-Path -LiteralPath '"@ + live + "')) { Write-Output '线上目录不存在，跳过备份'; exit 0 }\nWrite-Output '开始备份线上目录（文件较多时需要几分钟）…'\nif (Test-Path -LiteralPath '"@ + backup + "') { Remove-Item -LiteralPath '"@ + backup + l + live + "' '"@ + backup + r + (backup + "')\nexit 0"@));
}

/// The PowerShell test that ends a health check: exit 0 (alive) exactly
/// when `low < $statusCode < high`, exit 1 (failed) otherwise.
pub open spec fn status_between_test(low: nat, high: nat) -> Seq<char> {
    "if ($statusCode -gt "@ + decimal(low) + " -and $statusCode -lt "@ + decimal(high) + ") { exit 0 } else { exit 1 }"@
}

/// A health check counts an HTTP error status as alive exactly when it is
/// between 0 and 500 (a 404 means the site answers; a 500 means it is
/// broken): the script ends with that test.
pub proof fn lemma_health_alive_below_500(url: Seq<char>)
    ensures
        contains(spec_health_check_script(url), status_between_test(0, 500)),
{
    reveal_strlit("' -UseBasicParsing -TimeoutSec 10 | Out-Null; exit 0 } catch { $statusCode = 0; try { $statusCode = [int]$_.Exception.Response.StatusCode } catch {}; if ($statusCode -gt 0 -and $statusCode -lt 500) { exit 0 } else { exit 1 } }");
    reveal_strlit("' -UseBasicParsing -TimeoutSec 10 | Out-Null; exit 0 } catch { $statusCode = 0; try { $statusCode = [int]$_.Exception.Response.StatusCode } catch {}; ");
    reveal_strlit("if ($statusCode -gt 0 -and $statusCode -lt 500) { exit 0 } else { exit 1 }");
    reveal_strlit(" }");
    reveal_strlit("if ($statusCode -gt ");
    reveal_strlit(" -and $statusCode -lt ");
    reveal_strlit(") { exit 0 } else { exit 1 }");
    reveal_with_fuel(decimal, 4);
    assert(decimal(0) =~= seq!['0']);
    assert(decimal(5) =~= seq!['5']);
    assert(decimal(50) =~= seq!['5', '0']);
    assert(decimal(500) =~= seq!['5', '0', '0']);
    let test = "if ($statusCode -gt 0 -and $statusCode -lt 500) { exit 0 } else { exit 1 }"@;
    assert(status_between_test(0, 500) =~= test);
    let tail = "' -UseBasicParsing -TimeoutSec 10 | Out-Null; exit 0 } catch { $statusCode = 0; try { $statusCode = [int]$_.Exception.Response.StatusCode } catch {}; if ($statusCode -gt 0 -and $statusCode -lt 500) { exit 0 } else { exit 1 } }"@;
    let before = "' -UseBasicParsing -TimeoutSec 10 | Out-Null; exit 0 } catch { $statusCode = 0; try { $statusCode = [int]$_.Exception.Response.StatusCode } catch {}; "@;
    assert(tail =~= before + test + " }"@);
    let head = "try { Invoke-WebRequest -Uri '"@ + url + before;
    assert(spec_health_check_script(url) =~= head + test + " }"@);
    lemma_contains_within(head, test, " }"@);
}

/// The dated copy runs `robocopy $targetDir $siblingDir` with the application
/// directory as `$targetDir` (source) and the dated copy as `$siblingDir`.
pub proof fn lemma_sibling_backup_copies_app_dir(target_dir: Seq<char>, sibling_dir: Seq<char>)
    ensures
        contains(spec_sibling_backup_block(target_dir, sibling_dir), "$targetDir = '"@ + target_dir + "'\n  $siblingDir = '"@ + sibling_dir + "'"@),
{
    reveal_strlit("\nif ($actionExit -eq 0) {\n  $targetDir = '");
    reveal_strlit("$targetDir = '");
    reveal_strlit("'\n  if (-not (Test-Path -LiteralPath $targetDir)) { Write-Output '目录不存在，跳过日期备份' }\n  elseif (Test-Path -LiteralPath $siblingDir) { Write-Output ('今日备份已存在(' + $siblingDir + ')，跳过') }\n  else {\n    robocopy $targetDir $siblingDir /E /R:2 /W:3 /NP /NFL /NDL | Out-Null\n    if ($LASTEXITCODE -ge 8) { Write-Output '日期备份失败'; $actionExit = 2 }\n    else { Write-Output ('目录已备份 -> ' + $siblingDir) }\n  }\n}\n");
    reveal_strlit("'");
    let l = "\nif ($actionExit -eq 0) {\n  $targetDir = '"@;
    let r = "'\n  if (-not (Test-Path -LiteralPath $targetDir)) { Write-Output '目录不存在，跳过日期备份' }\n  elseif (Test-Path -LiteralPath $siblingDir) { Write-Output ('今日备份已存在(' + $siblingDir + ')，跳过') }\n  else {\n    robocopy $targetDir $siblingDir /E /R:2 /W:3 /NP /NFL /NDL | Out-Null\n    if ($LASTEXITCODE -ge 8) { Write-Output '日期备份失败'; $actionExit = 2 }\n    else { Write-Output ('目录已备份 -> ' + $siblingDir) }\n  }\n}\n"@;
    assert(l.skip(l.len() - "$targetDir = '"@.len()) =~= "$targetDir = '"@);
    assert(r.take("'"@.len() as int) =~= "'"@);
    lemma_contains_across(Seq::<char>::empty(), l, target_dir, "'\n  $siblingDir = '"@, sibling_dir, r, Seq::<char>::empty(), "$targetDir = '"@, "'"@);
    assert(spec_sibling_backup_block(target_dir, sibling_dir) =~= Seq::<char>::empty() + l + target_dir + "'\n  $siblingDir = '"@ + sibling_dir + r + Seq::<char>::empty());
}

/// The SMB copy goes from the release's staging directory (`$src`) to the
/// other server's share (`$dst`).
pub proof fn lemma_smb_copy_from_staging_to_share(share_root: Seq<char>, password: Seq<char>, staging_release: Seq<char>, remote_share_path: Seq<char>, user: Seq<char>, host_user: Seq<char>)
    ensures
        contains(spec_smb_copy_script(share_root, password, staging_release, remote_share_path, user, host_user), "$src = '"@ + staging_release + "'\n$dst = '"@ + remote_share_path + "'"@),
{
    reveal_strlit("'\n$src = '");
    reveal_strlit("$src = '");
    reveal_strlit("'\n$users = @('");
    reveal_strlit("'");
    let l = "'\n$src = '"@;
    let r = "'\n$users = @('"@;
    assert(l.skip(l.len() - "$src = '"@.len()) =~= "$src = '"@);
    assert(r.take("'"@.len() as int) =~= "'"@);
    lemma_contains_across("$ErrorActionPreference = 'Continue'\n$shareRoot = '"@ + share_root + "'\n$password = '"@ + password, l, staging_release, "'\n$dst = '"@, remote_share_path, r, (user + "')\nif ('"@ + host_user + "' -ne '"@ + user + "') { $users += '"@ + host_user + "' }\n\nnet use $shareRoot /delete /y 2>$null | Out-Null\n$mapped = $false\nforeach ($userName in $users) {\n  if ([string]::IsNullOrWhiteSpace($userName)) { continue }\n  Write-Output ('尝试映射 ' + $shareRoot + ' ，用户 ' + $userName)\n  net use $shareRoot $password /user:$userName /persistent:no\n  if ($LASTEXITCODE -eq 0) { $mapped = $true; break }\n  Write-Output ('net use 退出码 ' + $LASTEXITCODE)\n}\nif (-not $mapped) {\n  Write-Output ('SMB 映射失败，无法访问 ' + $shareRoot)\n  Write-Output '请检查：1) 主服务器能否访问备机管理共享 2) 账号密码是否正确 3) 备机已开启文件共享且 D$ 等管理共享可用 4) 本机账号访问管理共享需在备机设置 LocalAccountTokenFilterPolicy=1'\n  exit 1\n}\nif (-not (Test-Path -LiteralPath $src)) {\n  Write-Output ('源目录不存在: ' + $src)\n  net use $shareRoot /delete /y 2>$null | Out-Null\n  exit 1\n}\n$dstParent = Split-Path -Parent $dst\nif (-not (Test-Path -LiteralPath $dstParent)) {\n  New-Item -ItemType Directory -Path $dstParent -Force | Out-Null\n}\nrobocopy $src $dst /E /R:2 /W:5 /NP /NFL /NDL\n$copyResult = $LASTEXITCODE\nnet use $shareRoot /delete /y 2>$null | Out-Null\nif ($copyResult -ge 8) {\n  Write-Output ('SMB 复制失败，robocopy 退出码 ' + $copyResult + '（源: ' + $src + ' -> 目标: ' + $dst + '）')\n  if ($copyResult -eq 16) { Write-Output '退出码 16 表示严重错误：路径无效、无权限或共享不可用' }\n  exit 1\n}\nWrite-Output '内网复制完成'\nexit 0"@), "$src = '"@, "'"@);
    assert(spec_smb_copy_script(share_root, password, staging_release, remote_share_path, user, host_user) =~= "$ErrorActionPreference = 'Continue'\n$shareRoot = '"@ + share_root + "'\n$password = '"@ + password + l + staging_release + "'\n$dst = '"@ + remote_share_path + r + (user + "')\nif ('"@ + host_user + "' -ne '"@ + user + "') { $users += '"@ + host_user + "' }\n\nnet use $shareRoot /delete /y 2>$null | Out-Null\n$mapped = $false\nforeach ($userName in $users) {\n  if ([string]::IsNullOrWhiteSpace($userName)) { continue }\n  Write-Output ('尝试映射 ' + $shareRoot + ' ，用户 ' + $userName)\n  net use $shareRoot $password /user:$userName /persistent:no\n  if ($LASTEXITCODE -eq 0) { $mapped = $true; break }\n  Write-Output ('net use 退出码 ' + $LASTEXITCODE)\n}\nif (-not $mapped) {\n  Write-Output ('SMB 映射失败，无法访问 ' + $shareRoot)\n  Write-Output '请检查：1) 主服务器能否访问备机管理共享 2) 账号密码是否正确 3) 备机已开启文件共享且 D$ 等管理共享可用 4) 本机账号访问管理共享需在备机设置 LocalAccountTokenFilterPolicy=1'\n  exit 1\n}\nif (-not (Test-Path -LiteralPath $src)) {\n  Write-Output ('源目录不存在: ' + $src)\n  net use $shareRoot /delete /y 2>$null | Out-Null\n  exit 1\n}\n$dstParent = Split-Path -Parent $dst\nif (-not (Test-Path -LiteralPath $dstParent)) {\n  New-Item -ItemType Directory -Path $dstParent -Force | Out-Null\n}\nrobocopy $src $dst /E /R:2 /W:5 /NP /NFL /NDL\n$copyResult = $LASTEXITCODE\nnet use $shareRoot /delete /y 2>$null | Out-Null\nif ($copyResult -ge 8) {\n  Write-Output ('SMB 复制失败，robocopy 退出码 ' + $copyResult + '（源: ' + $src + ' -> 目标: ' + $dst + '）')\n  if ($copyResult -eq 16) { Write-Output '退出码 16 表示严重错误：路径无效、无权限或共享不可用' }\n  exit 1\n}\nWrite-Output '内网复制完成'\nexit 0"@));
}

/// The uploaded archive is expanded into the staging `bin`: the archive is
/// the source and the staging `bin` the destination.
pub proof fn lemma_expand_archive_into_staging(staging_bin: Seq<char>, remote_zip: Seq<char>)
    ensures
        contains(spec_expand_archive_script(staging_bin, remote_zip), "Expand-Archive -LiteralPath '"@ + remote_zip + "' -DestinationPath '"@ + staging_bin + "'"@),
{
    reveal_strlit("' -Recurse -Force }\nExpand-Archive -LiteralPath '");
    reveal_strlit("Expand-Archive -LiteralPath '");
    reveal_strlit("' -Force\nWrite-Output '解压完成 -> ");
    reveal_strlit("'");
    let l = "' -Recurse -Force }\nExpand-Archive -LiteralPath '"@;
    let r = "' -Force\nWrite-Output '解压完成 -> "@;
    assert(l.skip(l.len() - "Expand-Archive -LiteralPath '"@.len()) =~= "Expand-Archive -LiteralPath '"@);
    assert(r.take("'"@.len() as int) =~= "'"@);
    lemma_contains_across("$ErrorActionPreference = 'Stop'\nif (Test-Path '"@ + staging_bin + "') { Remove-Item -LiteralPath '"@ + staging_bin, l, remote_zip, "' -DestinationPath '"@, staging_bin, r, (staging_bin + "'"@), "Expand-Archive -LiteralPath '"@, "'"@);
    assert(spec_expand_archive_script(staging_bin, remote_zip) =~= "$ErrorActionPreference = 'Stop'\nif (Test-Path '"@ + staging_bin + "') { Remove-Item -LiteralPath '"@ + staging_bin + l + remote_zip + "' -DestinationPath '"@ + staging_bin + r + (staging_bin + "'"@));
}

/// A Linux extraction reads the archive `zip` and writes into `dest`.
pub proof fn lemma_linux_extract_names_archive_and_dest(zip: Seq<char>, dest: Seq<char>)
    ensures
        contains(spec_extract_linux_script(zip, dest), "zip='"@ + zip + "'\ndest='"@ + dest + "'"@),
{
    reveal_strlit("zip='");
    reveal_strlit("zip='");
    reveal_strlit("'\nif [ ! -f \"$zip\" ]; then echo '压缩包不存在'; exit 4; fi\necho '开始解压压缩包到线上目录（文件较多时需要一些时间）…'\nmkdir -p \"$dest\"\nif command -v unzip >/dev/null 2>&1; then\n  unzip -o -q \"$zip\" -d \"$dest\" || exit 6\nelif command -v python3 >/dev/null 2>&1; then\n  python3 -c \"import zipfile,sys; zipfile.ZipFile(sys.argv[1]).extractall(sys.argv[2])\" \"$zip\" \"$dest\" || exit 6\nelif command -v python >/dev/null 2>&1; then\n  python -c \"import zipfile,sys; zipfile.ZipFile(sys.argv[1]).extractall(sys.argv[2])\" \"$zip\" \"$dest\" || exit 6\nelse\n  echo '无法解压：请安装 unzip 或 python3'\n  exit 6\nfi\nrm -f \"$zip\"\necho '解压覆盖完成'");
    reveal_strlit("'");
    let l = "zip='"@;
    let r = "'\nif [ ! -f \"$zip\" ]; then echo '压缩包不存在'; exit 4; fi\necho '开始解压压缩包到线上目录（文件较多时需要一些时间）…'\nmkdir -p \"$dest\"\nif command -v unzip >/dev/null 2>&1; then\n  unzip -o -q \"$zip\" -d \"$dest\" || exit 6\nelif command -v python3 >/dev/null 2>&1; then\n  python3 -c \"import zipfile,sys; zipfile.ZipFile(sys.argv[1]).extractall(sys.argv[2])\" \"$zip\" \"$dest\" || exit 6\nelif command -v python >/dev/null 2>&1; then\n  python -c \"import zipfile,sys; zipfile.ZipFile(sys.argv[1]).extractall(sys.argv[2])\" \"$zip\" \"$dest\" || exit 6\nelse\n  echo '无法解压：请安装 unzip 或 python3'\n  exit 6\nfi\nrm -f \"$zip\"\necho '解压覆盖完成'"@;
    assert(l.skip(l.len() - "zip='"@.len()) =~= "zip='"@);
    assert(r.take("'"@.len() as int) =~= "'"@);
    lemma_contains_across(Seq::<char>::empty(), l, zip, "'\ndest='"@, dest, r, Seq::<char>::empty(), "zip='"@, "'"@);
    assert(spec_extract_linux_script(zip, dest) =~= Seq::<char>::empty() + l + zip + "'\ndest='"@ + dest + r + Seq::<char>::empty());
}

/// A Linux mirror extraction reads the archive `zip` and writes into `dest`.
pub proof fn lemma_linux_mirror_extract_names_archive_and_dest(zip: Seq<char>, dest: Seq<char>)
    ensures
        contains(spec_extract_linux_mirror_script(zip, dest), "zip='"@ + zip + "'\ndest='"@ + dest + "'"@),
{
    reveal_strlit("zip='");
    reveal_strlit("zip='");
    reveal_strlit("'\nextract=\"${dest}.extract-tmp\"\nif [ ! -f \"$zip\" ]; then echo '压缩包不存在'; exit 4; fi\necho '开始解压压缩包（文件较多时需要一些时间）…'\nrm -rf \"$extract\"\nmkdir -p \"$extract\"\nif command -v unzip >/dev/null 2>&1; then\n  unzip -o -q \"$zip\" -d \"$extract\" || exit 6\nelif command -v python3 >/dev/null 2>&1; then\n  python3 -c \"import zipfile,sys; zipfile.ZipFile(sys.argv[1]).extractall(sys.argv[2])\" \"$zip\" \"$extract\" || exit 6\nelif command -v python >/dev/null 2>&1; then\n  python -c \"import zipfile,sys; zipfile.ZipFile(sys.argv[1]).extractall(sys.argv[2])\" \"$zip\" \"$extract\" || exit 6\nelse\n  echo '无法解压：请安装 unzip 或 python3'\n  exit 6\nfi\necho '压缩包已解压，正在写入线上目录…'\nif command -v rsync >/dev/null 2>&1; then\n  mkdir -p \"$dest\"\n  rsync -a --delete \"$extract\"/ \"$dest\"/ || exit 3\n  rm -rf \"$extract\"\nelse\n  rm -rf \"$dest\"\n  mv \"$extract\" \"$dest\" || exit 3\nfi\nrm -f \"$zip\"\necho '解压覆盖完成'");
    reveal_strlit("'");
    let l = "zip='"@;
    let r = "'\nextract=\"${dest}.extract-tmp\"\nif [ ! -f \"$zip\" ]; then echo '压缩包不存在'; exit 4; fi\necho '开始解压压缩包（文件较多时需要一些时间）…'\nrm -rf \"$extract\"\nmkdir -p \"$extract\"\nif command -v unzip >/dev/null 2>&1; then\n  unzip -o -q \"$zip\" -d \"$extract\" || exit 6\nelif command -v python3 >/dev/null 2>&1; then\n  python3 -c \"import zipfile,sys; zipfile.ZipFile(sys.argv[1]).extractall(sys.argv[2])\" \"$zip\" \"$extract\" || exit 6\nelif command -v python >/dev/null 2>&1; then\n  python -c \"import zipfile,sys; zipfile.ZipFile(sys.argv[1]).extractall(sys.argv[2])\" \"$zip\" \"$extract\" || exit 6\nelse\n  echo '无法解压：请安装 unzip 或 python3'\n  exit 6\nfi\necho '压缩包已解压，正在写入线上目录…'\nif command -v rsync >/dev/null 2>&1; then\n  mkdir -p \"$dest\"\n  rsync -a --delete \"$extract\"/ \"$dest\"/ || exit 3\n  rm -rf \"$extract\"\nelse\n  rm -rf \"$dest\"\n  mv \"$extract\" \"$dest\" || exit 3\nfi\nrm -f \"$zip\"\necho '解压覆盖完成'"@;
    assert(l.skip(l.len() - "zip='"@.len()) =~= "zip='"@);
    assert(r.take("'"@.len() as int) =~= "'"@);
    lemma_contains_across(Seq::<char>::empty(), l, zip, "'\ndest='"@, dest, r, Seq::<char>::empty(), "zip='"@, "'"@);
    assert(spec_extract_linux_mirror_script(zip, dest) =~= Seq::<char>::empty() + l + zip + "'\ndest='"@ + dest + r + Seq::<char>::empty());
}

/// A Windows extraction reads the archive `$zip` and writes into `$dest`.
pub proof fn lemma_windows_extract_names_archive_and_dest(zip: Seq<char>, dest: Seq<char>, delete: Seq<char>, copy_switch: Seq<char>)
    ensures
        contains(spec_extract_windows_script(zip, dest, delete, copy_switch), "$zip = '"@ + zip + "'\n$dest = '"@ + dest + "'"@),
{
    reveal_strlit("$ErrorActionPreference = 'Continue'\n$zip = '");
    reveal_strlit("$zip = '");
    reveal_strlit("'\n$extract = if (");
    reveal_strlit("'");
    let l = "$ErrorActionPreference = 'Continue'\n$zip = '"@;
    let r = "'\n$extract = if ("@;
    assert(l.skip(l.len() - "$zip = '"@.len()) =~= "$zip = '"@);
    assert(r.take("'"@.len() as int) =~= "'"@);
    lemma_contains_across(Seq::<char>::empty(), l, zip, "'\n$dest = '"@, dest, r, (delete + ") { '"@ + dest + ".extract-tmp' } else { $dest }\nif (-not (Test-Path -LiteralPath $zip)) { Write-Output '压缩包不存在'; exit 4 }\nif (Test-Path -LiteralPath $extract) { if ($extract -ne $dest) { Remove-Item -LiteralPath $extract -Recurse -Force } }\nif (-not (Test-Path -LiteralPath $extract)) { New-Item -ItemType Directory -Path $extract -Force | Out-Null }\nWrite-Output '开始解压压缩包（文件较多时需要一些时间）…'\n$tar = Get-Command tar -ErrorAction SilentlyContinue\nif ($tar) {\n  & tar -xf $zip -C $extract\n  if ($LASTEXITCODE -ne 0) { Write-Output 'tar 解压失败'; exit 6 }\n} else {\n  Expand-Archive -LiteralPath $zip -DestinationPath $extract -Force\n}\nWrite-Output '压缩包已解压'\nif ("@ + delete + ") {\n  Write-Output '正在同步到线上目录…'\n  if (-not (Test-Path -LiteralPath $dest)) { New-Item -ItemType Directory -Path $dest -Force | Out-Null }\n  robocopy $extract $dest "@ + copy_switch + " /R:2 /W:2 /NP /NFL /NDL | Out-Null\n  if ($LASTEXITCODE -ge 8) { Write-Output '同步到目标目录失败'; exit 3 }\n  Remove-Item -LiteralPath $extract -Recurse -Force -ErrorAction SilentlyContinue\n  Write-Output '线上目录已更新'\n}\nRemove-Item -LiteralPath $zip -Force -ErrorAction SilentlyContinue\nWrite-Output '解压覆盖完成'\nexit 0"@), "$zip = '"@, "'"@);
    assert(spec_extract_windows_script(zip, dest, delete, copy_switch) =~= Seq::<char>::empty() + l + zip + "'\n$dest = '"@ + dest + r + (delete + ") { '"@ + dest + ".extract-tmp' } else { $dest }\nif (-not (Test-Path -LiteralPath $zip)) { Write-Output '压缩包不存在'; exit 4 }\nif (Test-Path -LiteralPath $extract) { if ($extract -ne $dest) { Remove-Item -LiteralPath $extract -Recurse -Force } }\nif (-not (Test-Path -LiteralPath $extract)) { New-Item -ItemType Directory -Path $extract -Force | Out-Null }\nWrite-Output '开始解压压缩包（文件较多时需要一些时间）…'\n$tar = Get-Command tar -ErrorAction SilentlyContinue\nif ($tar) {\n  & tar -xf $zip -C $extract\n  if ($LASTEXITCODE -ne 0) { Write-Output 'tar 解压失败'; exit 6 }\n} else {\n  Expand-Archive -LiteralPath $zip -DestinationPath $extract -Force\n}\nWrite-Output '压缩包已解压'\nif ("@ + delete + ") {\n  Write-Output '正在同步到线上目录…'\n  if (-not (Test-Path -LiteralPath $dest)) { New-Item -ItemType Directory -Path $dest -Force | Out-Null }\n  robocopy $extract $dest "@ + copy_switch + " /R:2 /W:2 /NP /NFL /NDL | Out-Null\n  if ($LASTEXITCODE -ge 8) { Write-Output '同步到目标目录失败'; exit 3 }\n  Remove-Item -LiteralPath $extract -Recurse -Force -ErrorAction SilentlyContinue\n  Write-Output '线上目录已更新'\n}\nRemove-Item -LiteralPath $zip -Force -ErrorAction SilentlyContinue\nWrite-Output '解压覆盖完成'\nexit 0"@));
}

} // verus!
